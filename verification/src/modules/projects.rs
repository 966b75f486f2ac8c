//! Projects with their members, notes, board, sprints, tasks and comments:
//! who may do what, what is stored for a request, and how the stored rows
//! are answered.
use crate::common::errors::{
    AppError, bad_request, forbidden, internal, not_found, rejects_bad_request, rejects_forbidden,
    rejects_internal, rejects_not_found, DbError,
};
use crate::common::response::{
    normalize_page_limit, spec_normalize_page_limit, spec_total_pages, PaginatedData,
};
use crate::common::text::{
    clone_opt_string,
    normalize_optional, opt_string_view, opt_view, owned_optional_string,
    spec_normalize_optional, trimmed, trimmed_optional, trimmed_string,
};
use crate::common::validation::{
    FieldError, Issue, issues, issue_if, char_len, email_valid, check_trimmed_len, check_max_chars,
    check_length, check_range, check_email,
};
use vstd::prelude::*;

verus! {

broadcast use vstd::seq_lib::group_seq_properties;

#[derive(Clone, Copy, PartialEq, Eq, Debug, Structural)]
pub enum ProjectStatus {
    Planning,
    Active,
    Completed,
    OnHold,
}

#[derive(Clone, Copy, PartialEq, Eq, Debug, Structural)]
pub enum NoteType {
    Folder,
    File,
}

#[derive(Clone, Copy, PartialEq, Eq, Debug, Structural)]
pub enum TaskType {
    Epic,
    Story,
    Task,
    Bug,
}

#[derive(Clone, Copy, PartialEq, Eq, Debug, Structural)]
pub enum TaskPriority {
    Lowest,
    Low,
    Medium,
    High,
    Highest,
}

/// A stored project (instants are Unix timestamps).
pub struct Project {
    pub id: u128,
    pub title: String,
    pub description: String,
    pub owner_id: u128,
    pub status: ProjectStatus,
    pub start_date: i64,
    pub finish_date: Option<i64>,
    pub created_at: i64,
    pub updated_at: i64,
}

pub struct ProjectNote {
    pub id: u128,
    pub project_id: u128,
    pub parent_id: Option<u128>,
    pub type_: NoteType,
    pub title: String,
    pub content: Option<String>,
    pub created_by: u128,
    pub updated_by: u128,
    pub created_at: i64,
    pub updated_at: i64,
}

pub struct Board {
    pub id: u128,
    pub project_id: u128,
    pub name: String,
}

pub struct BoardColumn {
    pub id: u128,
    pub board_id: u128,
    pub name: String,
    pub order_index: i32,
}

pub struct Sprint {
    pub id: u128,
    pub project_id: u128,
    pub name: String,
    pub goal: Option<String>,
    pub start_date: i64,
    pub end_date: Option<i64>,
    pub is_active: bool,
}

pub struct Task {
    pub id: u128,
    pub project_id: u128,
    pub board_id: u128,
    pub sprint_id: Option<u128>,
    pub column_id: u128,
    pub title: String,
    pub description: String,
    pub type_: TaskType,
    pub priority: TaskPriority,
    pub story_points: Option<i32>,
    pub assignee_id: Option<u128>,
    pub reporter_id: u128,
    pub tag: Option<String>,
    pub created_at: i64,
    pub updated_at: i64,
}

pub struct TaskComment {
    pub id: u128,
    pub task_id: u128,
    pub user_id: u128,
    pub content: String,
    pub created_at: i64,
    pub updated_at: i64,
}

pub struct NewProject {
    pub title: String,
    pub description: String,
    pub owner_id: u128,
    pub status: ProjectStatus,
    pub start_date: i64,
    pub finish_date: Option<i64>,
}

pub struct NewProjectMember {
    pub project_id: u128,
    pub user_id: u128,
}

pub struct NewBoard {
    pub project_id: u128,
    pub name: String,
}

pub struct NewBoardColumn {
    pub board_id: u128,
    pub name: String,
    pub order_index: i32,
}

pub struct NewSprint {
    pub project_id: u128,
    pub name: String,
    pub goal: Option<String>,
    pub start_date: i64,
    pub end_date: Option<i64>,
    pub is_active: bool,
}

pub struct NewProjectNote {
    pub project_id: u128,
    pub parent_id: Option<u128>,
    pub type_: NoteType,
    pub title: String,
    pub content: Option<String>,
    pub created_by: u128,
    pub updated_by: u128,
}

pub struct NewTask {
    pub project_id: u128,
    pub board_id: u128,
    pub sprint_id: Option<u128>,
    pub column_id: u128,
    pub title: String,
    pub description: String,
    pub type_: TaskType,
    pub priority: TaskPriority,
    pub story_points: Option<i32>,
    pub assignee_id: Option<u128>,
    pub reporter_id: u128,
    pub tag: Option<String>,
}

pub struct NewTaskComment {
    pub task_id: u128,
    pub user_id: u128,
    pub content: String,
}

/// The fields an edit of a task changes (`None`: unchanged).
pub struct TaskChangeset {
    pub title: Option<String>,
    pub description: Option<String>,
    pub column_id: Option<u128>,
    pub type_: Option<TaskType>,
    pub priority: Option<TaskPriority>,
    pub story_points: Option<Option<i32>>,
    pub sprint_id: Option<Option<u128>>,
    pub assignee_id: Option<Option<u128>>,
    pub tag: Option<Option<String>>,
}

/// The fields an edit of a sprint changes (`None`: unchanged).
pub struct SprintChangeset {
    pub name: Option<String>,
    pub goal: Option<Option<String>>,
    pub start_date: Option<i64>,
    pub end_date: Option<Option<i64>>,
    pub is_active: Option<bool>,
}

/// A member as the member query returns it: user id, e-mail, first name,
/// last name, and when they joined.
pub type MemberRow = (u128, Option<String>, Option<String>, Option<String>, i64);

pub struct CreateProjectRequest {
    pub title: String,
    pub description: String,
    pub status: Option<ProjectStatus>,
    pub start_date: i64,
    pub finish_date: Option<i64>,
}

pub struct UpdateProjectRequest {
    pub title: String,
    pub description: String,
    pub status: ProjectStatus,
    pub start_date: i64,
    pub finish_date: Option<i64>,
}

pub struct AddProjectMemberRequest {
    pub email: String,
}

pub struct ProjectMemberFilterQuery {
    pub page: Option<i64>,
    pub limit: Option<i64>,
    pub first_name: Option<String>,
    pub last_name: Option<String>,
    pub email: Option<String>,
}

pub struct CreateNoteRequest {
    pub parent_id: Option<u128>,
    pub type_: NoteType,
    pub title: String,
    pub content: Option<String>,
}

pub struct UpdateNoteRequest {
    pub title: String,
    pub content: Option<String>,
}

pub struct CreateSprintRequest {
    pub name: String,
    pub goal: Option<String>,
    pub start_date: i64,
    pub end_date: Option<i64>,
}

pub struct UpdateSprintRequest {
    pub name: Option<String>,
    pub goal: Option<Option<String>>,
    pub start_date: Option<i64>,
    pub end_date: Option<Option<i64>>,
    pub is_active: Option<bool>,
}

pub struct CreateTaskRequest {
    pub project_id: u128,
    pub sprint_id: Option<u128>,
    pub column_id: Option<u128>,
    pub title: String,
    pub description: String,
    pub type_: TaskType,
    pub priority: TaskPriority,
    pub story_points: Option<i32>,
    pub assignee_id: Option<u128>,
    pub tag: Option<String>,
}

pub struct UpdateTaskRequest {
    pub title: Option<String>,
    pub description: Option<String>,
    pub column_id: Option<u128>,
    pub type_: Option<TaskType>,
    pub priority: Option<TaskPriority>,
    pub story_points: Option<Option<i32>>,
    pub sprint_id: Option<Option<u128>>,
    pub assignee_id: Option<Option<u128>>,
    pub tag: Option<Option<String>>,
}

pub struct CreateCommentRequest {
    pub content: String,
}

pub struct ProjectResponse {
    pub id: u128,
    pub title: String,
    pub description: String,
    pub owner_id: u128,
    pub status: ProjectStatus,
    pub start_date: i64,
    pub finish_date: Option<i64>,
    pub member_count: i64,
    pub created_at: i64,
    pub updated_at: i64,
}

pub struct MemberResponse {
    pub user_id: u128,
    pub email: Option<String>,
    pub first_name: Option<String>,
    pub last_name: Option<String>,
    pub joined_at: i64,
}

pub struct ProjectDetailResponse {
    pub id: u128,
    pub title: String,
    pub description: String,
    pub owner_id: u128,
    pub status: ProjectStatus,
    pub start_date: i64,
    pub finish_date: Option<i64>,
    pub created_at: i64,
    pub updated_at: i64,
    pub members: Vec<MemberResponse>,
}

pub struct NoteResponse {
    pub id: u128,
    pub project_id: u128,
    pub parent_id: Option<u128>,
    pub type_: NoteType,
    pub title: String,
    pub content: Option<String>,
    pub created_by: u128,
    pub updated_by: u128,
    pub created_at: i64,
    pub updated_at: i64,
    pub children: Vec<NoteResponse>,
}

pub struct SprintResponse {
    pub id: u128,
    pub project_id: u128,
    pub name: String,
    pub goal: Option<String>,
    pub start_date: i64,
    pub end_date: Option<i64>,
    pub is_active: bool,
}

pub struct TaskAssigneeResponse {
    pub user_id: u128,
    pub first_name: Option<String>,
    pub last_name: Option<String>,
}

pub struct TaskResponse {
    pub id: u128,
    pub project_id: u128,
    pub board_id: u128,
    pub sprint_id: Option<u128>,
    pub column_id: u128,
    pub title: String,
    pub description: String,
    pub type_: TaskType,
    pub priority: TaskPriority,
    pub story_points: Option<i32>,
    pub assignee_id: Option<u128>,
    pub assignee: Option<TaskAssigneeResponse>,
    pub reporter_id: u128,
    pub tag: Option<String>,
    pub created_at: i64,
    pub updated_at: i64,
}

pub struct BoardColumnResponse {
    pub id: u128,
    pub name: String,
    pub order_index: i32,
}

pub struct BoardResponse {
    pub id: u128,
    pub project_id: u128,
    pub name: String,
    pub columns: Vec<BoardColumnResponse>,
}

pub struct KanbanColumnResponse {
    pub id: u128,
    pub name: String,
    pub order_index: i32,
    pub tasks: Vec<TaskResponse>,
}

pub struct KanbanResponse {
    pub board_id: u128,
    pub board_name: String,
    pub active_sprint: Option<SprintResponse>,
    pub columns: Vec<KanbanColumnResponse>,
}

pub struct CommentResponse {
    pub id: u128,
    pub task_id: u128,
    pub user_id: u128,
    pub content: String,
    pub created_at: i64,
    pub updated_at: i64,
}

/// Service of projects.
pub struct ProjectService;

// ===== Access =====

/// A lookup that found nothing, or failed, is `None`.
pub open spec fn is_owner_of(project: Option<Project>, user_id: u128) -> bool {
    match project {
        Some(p) => p.owner_id == user_id,
        None => false,
    }
}

impl ProjectService {
    /// The project, when it was found (`None`: not found or the lookup
    /// failed) and the user is one of its members; `is_member` is the
    /// membership lookup, which is only consulted for a found project.
    pub fn ensure_member(project: Option<Project>, is_member: Result<bool, DbError>) -> (r: Result<Project, AppError>)
        ensures
            project is None ==> rejects_not_found(r, "ไม่พบโปรเจกต์นี้"@),
            project is Some && is_member is Err ==> rejects_internal(r, "Query Error"@),
            project is Some && is_member == Ok::<bool, DbError>(false) ==> rejects_forbidden(
                r,
                "คุณไม่ใช่สมาชิกของโปรเจกต์นี้"@,
            ),
            r is Ok <==> (project is Some && is_member == Ok::<bool, DbError>(true)),
            r is Ok ==> r->Ok_0 == project->0,
    {
        let p = match project {
            Some(p) => p,
            None => return Err(not_found("ไม่พบโปรเจกต์นี้")),
        };
        match is_member {
            Err(_) => Err(internal("Query Error")),
            Ok(false) => Err(forbidden("คุณไม่ใช่สมาชิกของโปรเจกต์นี้")),
            Ok(true) => Ok(p),
        }
    }

    /// The project, when it was found and the user owns it.
    pub fn ensure_owner(project: Option<Project>, user_id: u128) -> (r: Result<Project, AppError>)
        ensures
            project is None ==> rejects_not_found(r, "ไม่พบโปรเจกต์นี้"@),
            project is Some && !is_owner_of(project, user_id) ==> rejects_forbidden(
                r,
                "เฉพาะเจ้าของโปรเจกต์เท่านั้นที่ทำรายการนี้ได้"@,
            ),
            r is Ok <==> is_owner_of(project, user_id),
            r is Ok ==> r->Ok_0 == project->0,
    {
        let p = match project {
            Some(p) => p,
            None => return Err(not_found("ไม่พบโปรเจกต์นี้")),
        };
        if p.owner_id != user_id {
            return Err(forbidden("เฉพาะเจ้าของโปรเจกต์เท่านั้นที่ทำรายการนี้ได้"));
        }
        Ok(p)
    }

    /// The owner cannot be removed from the members.
    pub fn remove_member(project: &Project, member_id: u128) -> (r: Result<(), AppError>)
        ensures
            project.owner_id == member_id ==> rejects_bad_request(
                r,
                "ไม่สามารถลบเจ้าของโปรเจกต์ออกจากสมาชิกได้"@,
            ),
            r is Ok <==> project.owner_id != member_id,
    {
        if project.owner_id == member_id {
            return Err(bad_request("ไม่สามารถลบเจ้าของโปรเจกต์ออกจากสมาชิกได้"));
        }
        Ok(())
    }

    /// A removal that deleted no row had no such member to remove.
    pub fn member_removed(deleted: usize) -> (r: Result<(), AppError>)
        ensures
            deleted == 0 ==> rejects_not_found(r, "ไม่พบสมาชิกในโปรเจกต์นี้"@),
            r is Ok <==> deleted != 0,
    {
        if deleted == 0 {
            return Err(not_found("ไม่พบสมาชิกในโปรเจกต์นี้"));
        }
        Ok(())
    }

    /// The user to add, from the e-mail lookup (`Ok(None)`: no such user;
    /// the pair is the user's id and whether the account is deleted).
    pub fn member_to_add(found: Result<Option<(u128, bool)>, DbError>) -> (r: Result<u128, AppError>)
        ensures
            found is Err ==> rejects_internal(r, "Query Error"@),
            found matches Ok(None) ==> rejects_not_found(r, "ไม่พบผู้ใช้งานจากอีเมลนี้"@),
            found matches Ok(Some(u)) ==> (u.1 ==> rejects_not_found(r, "ไม่พบผู้ใช้งานจากอีเมลนี้"@)),
            found matches Ok(Some(u)) ==> (!u.1 ==> r == Ok::<u128, AppError>(u.0)),
    {
        match found {
            Err(_) => Err(internal("Query Error")),
            Ok(None) => Err(not_found("ไม่พบผู้ใช้งานจากอีเมลนี้")),
            Ok(Some((id, deleted))) => if deleted {
                Err(not_found("ไม่พบผู้ใช้งานจากอีเมลนี้"))
            } else {
                Ok(id)
            },
        }
    }

    /// A user who is already a member is not added again.
    pub fn check_not_member(is_member: Result<bool, DbError>) -> (r: Result<(), AppError>)
        ensures
            is_member is Err ==> rejects_internal(r, "Query Error"@),
            is_member == Ok::<bool, DbError>(true) ==> rejects_bad_request(
                r,
                "ผู้ใช้งานนี้เป็นสมาชิกของโปรเจกต์อยู่แล้ว"@,
            ),
            r is Ok <==> is_member == Ok::<bool, DbError>(false),
    {
        match is_member {
            Err(_) => Err(internal("Query Error")),
            Ok(true) => Err(bad_request("ผู้ใช้งานนี้เป็นสมาชิกของโปรเจกต์อยู่แล้ว")),
            Ok(false) => Ok(()),
        }
    }

    /// The added member among the project's members: the first row with
    /// the member's id.
    pub fn find_added_member(members: Vec<MemberRow>, member_id: u128) -> (r: Result<MemberResponse, AppError>)
        ensures
            (forall|i: int| 0 <= i < members@.len() ==> (#[trigger] members@[i]).0 != member_id)
                ==> rejects_internal(r, "ไม่พบสมาชิกที่เพิ่มใหม่"@),
            forall|i: int|
                0 <= i < members@.len() && (#[trigger] members@[i]).0 == member_id && (forall|j: int|
                    0 <= j < i ==> (#[trigger] members@[j]).0 != member_id) ==> (r matches Ok(m)
                    && answers_member(m, members@[i])),
    {
        let mut rows = members;
        let ghost all = rows@;
        let mut i: usize = 0;
        let n = rows.len();
        while i < n
            invariant
                n == all.len(),
                rows@ == all,
                members@ == all,
                0 <= i <= n,
                forall|j: int| 0 <= j < i ==> (#[trigger] all[j]).0 != member_id,
            decreases n - i,
        {
            if rows[i].0 == member_id {
                let row = rows.remove(i);
                proof {
                    assert(row == members@[i as int]);
                    assert forall|k: int|
                        0 <= k < members@.len() && (#[trigger] members@[k]).0 == member_id && (forall|j: int|
                            0 <= j < k ==> (#[trigger] members@[j]).0 != member_id) implies k == i by {
                        if k < i {
                            assert(all[k].0 != member_id);
                        } else if k > i {
                            assert(members@[i as int].0 == member_id);
                        }
                    }
                }
                return Ok(to_member_response(row));
            }
            i = i + 1;
        }
        Err(internal("ไม่พบสมาชิกที่เพิ่มใหม่"))
    }
}

// ===== Responses =====

/// A member row as answered.
pub open spec fn answers_member(m: MemberResponse, row: MemberRow) -> bool {
    &&& m.user_id == row.0
    &&& m.email == row.1
    &&& m.first_name == row.2
    &&& m.last_name == row.3
    &&& m.joined_at == row.4
}

pub fn to_member_response(row: MemberRow) -> (m: MemberResponse)
    ensures
        answers_member(m, row),
{
    let (user_id, email, first_name, last_name, joined_at) = row;
    MemberResponse { user_id, email, first_name, last_name, joined_at }
}

/// Answers each member row in order.
pub fn to_member_responses(rows: Vec<MemberRow>) -> (r: Vec<MemberResponse>)
    ensures
        r@.len() == rows@.len(),
        forall|i: int| 0 <= i < r@.len() ==> answers_member(#[trigger] r@[i], rows@[i]),
{
    let mut rest = rows;
    let ghost all = rest@;
    let mut out: Vec<MemberResponse> = Vec::new();
    while rest.len() > 0
        invariant
            out@.len() + rest@.len() == all.len(),
            forall|j: int| 0 <= j < rest@.len() ==> rest@[j] == all[out@.len() + j],
            forall|j: int| 0 <= j < out@.len() ==> answers_member(#[trigger] out@[j], all[j]),
        decreases rest@.len(),
    {
        let row = rest.remove(0);
        out.push(to_member_response(row));
    }
    out
}

pub open spec fn answers_project(r: ProjectResponse, p: Project, member_count: i64) -> bool {
    &&& r.id == p.id
    &&& r.title == p.title
    &&& r.description == p.description
    &&& r.owner_id == p.owner_id
    &&& r.status == p.status
    &&& r.start_date == p.start_date
    &&& r.finish_date == p.finish_date
    &&& r.member_count == member_count
    &&& r.created_at == p.created_at
    &&& r.updated_at == p.updated_at
}

pub fn to_project_response(project: Project, member_count: i64) -> (r: ProjectResponse)
    ensures
        answers_project(r, project, member_count),
{
    ProjectResponse {
        id: project.id,
        title: project.title,
        description: project.description,
        owner_id: project.owner_id,
        status: project.status,
        start_date: project.start_date,
        finish_date: project.finish_date,
        member_count,
        created_at: project.created_at,
        updated_at: project.updated_at,
    }
}

/// A project with its members, each row answered in order.
pub fn to_project_detail_response(project: Project, members: Vec<MemberRow>) -> (r: ProjectDetailResponse)
    ensures
        r.id == project.id,
        r.title == project.title,
        r.description == project.description,
        r.owner_id == project.owner_id,
        r.status == project.status,
        r.start_date == project.start_date,
        r.finish_date == project.finish_date,
        r.created_at == project.created_at,
        r.updated_at == project.updated_at,
        r.members@.len() == members@.len(),
        forall|i: int| 0 <= i < members@.len() ==> answers_member(#[trigger] r.members@[i], members@[i]),
{
    ProjectDetailResponse {
        id: project.id,
        title: project.title,
        description: project.description,
        owner_id: project.owner_id,
        status: project.status,
        start_date: project.start_date,
        finish_date: project.finish_date,
        created_at: project.created_at,
        updated_at: project.updated_at,
        members: to_member_responses(members),
    }
}

pub open spec fn answers_sprint(r: SprintResponse, s: Sprint) -> bool {
    &&& r.id == s.id
    &&& r.project_id == s.project_id
    &&& r.name == s.name
    &&& r.goal == s.goal
    &&& r.start_date == s.start_date
    &&& r.end_date == s.end_date
    &&& r.is_active == s.is_active
}

pub fn to_sprint_response(sprint: Sprint) -> (r: SprintResponse)
    ensures
        answers_sprint(r, sprint),
{
    SprintResponse {
        id: sprint.id,
        project_id: sprint.project_id,
        name: sprint.name,
        goal: sprint.goal,
        start_date: sprint.start_date,
        end_date: sprint.end_date,
        is_active: sprint.is_active,
    }
}

pub open spec fn answers_comment(r: CommentResponse, c: TaskComment) -> bool {
    &&& r.id == c.id
    &&& r.task_id == c.task_id
    &&& r.user_id == c.user_id
    &&& r.content == c.content
    &&& r.created_at == c.created_at
    &&& r.updated_at == c.updated_at
}

pub fn to_comment_response(comment: TaskComment) -> (r: CommentResponse)
    ensures
        answers_comment(r, comment),
{
    CommentResponse {
        id: comment.id,
        task_id: comment.task_id,
        user_id: comment.user_id,
        content: comment.content,
        created_at: comment.created_at,
        updated_at: comment.updated_at,
    }
}

/// A note as answered, with the given children.
pub open spec fn answers_note_fields(r: NoteResponse, n: ProjectNote) -> bool {
    &&& r.id == n.id
    &&& r.project_id == n.project_id
    &&& r.parent_id == n.parent_id
    &&& r.type_ == n.type_
    &&& r.title == n.title
    &&& r.content == n.content
    &&& r.created_by == n.created_by
    &&& r.updated_by == n.updated_by
    &&& r.created_at == n.created_at
    &&& r.updated_at == n.updated_at
}

pub fn to_note_response_flat(note: ProjectNote, children: Vec<NoteResponse>) -> (r: NoteResponse)
    ensures
        answers_note_fields(r, note),
        r.children == children,
{
    NoteResponse {
        id: note.id,
        project_id: note.project_id,
        parent_id: note.parent_id,
        type_: note.type_,
        title: note.title,
        content: note.content,
        created_by: note.created_by,
        updated_by: note.updated_by,
        created_at: note.created_at,
        updated_at: note.updated_at,
        children,
    }
}

/// A single note as answered, without children.
pub fn to_note_response(note: ProjectNote) -> (r: NoteResponse)
    ensures
        answers_note_fields(r, note),
        r.children@.len() == 0,
{
    to_note_response_flat(note, Vec::new())
}

// ===== What is stored for a request =====

/// The parent was found, in the project, and is a folder.
pub open spec fn is_folder_of(parent: Option<ProjectNote>, project_id: u128) -> bool {
    match parent {
        Some(p) => p.project_id == project_id && p.type_ == NoteType::Folder,
        None => false,
    }
}

/// Content of a note of the given type: a folder has none, a file keeps the
/// trimmed text unless it is blank.
pub open spec fn note_content(type_: NoteType, content: Option<Seq<char>>) -> Option<Seq<char>> {
    if type_ == NoteType::Folder {
        None
    } else {
        spec_normalize_optional(content)
    }
}

fn content_for(type_: NoteType, content: &Option<String>) -> (r: Option<String>)
    ensures
        opt_string_view(r) == note_content(type_, opt_string_view(*content)),
{
    if type_ == NoteType::Folder {
        None
    } else {
        owned_optional_string(content)
    }
}

/// Names of the columns a new board starts with, left to right.
pub open spec fn default_column_name(i: int) -> Seq<char> {
    if i == 0 {
        "Todo"@
    } else if i == 1 {
        "In progress"@
    } else if i == 2 {
        "Ready to test"@
    } else {
        "Done"@
    }
}

/// Activating a sprint while another sprint of the project is active.
pub open spec fn activation_blocked(is_active: Option<bool>, sprint_id: u128, active_sprint_id: Option<u128>) -> bool {
    is_active == Some(true) && match active_sprint_id {
        Some(a) => a != sprint_id,
        None => false,
    }
}

/// An edit that moves a task into a sprint (rather than out of one).
pub open spec fn names_sprint(sprint_id: Option<Option<u128>>) -> bool {
    match sprint_id {
        Some(Some(_)) => true,
        _ => false,
    }
}

impl ProjectService {
    /// The project a creation stores: trimmed text, owned by the user, with
    /// the status given or `Planning`.
    pub fn new_project(payload: &CreateProjectRequest, user_id: u128) -> (r: NewProject)
        ensures
            r.title@ == trimmed(payload.title@),
            r.description@ == trimmed(payload.description@),
            r.owner_id == user_id,
            r.status == match payload.status {
                Some(s) => s,
                None => ProjectStatus::Planning,
            },
            r.start_date == payload.start_date,
            r.finish_date == payload.finish_date,
    {
        let status = match payload.status {
            Some(s) => s,
            None => ProjectStatus::Planning,
        };
        NewProject {
            title: trimmed_string(&payload.title),
            description: trimmed_string(&payload.description),
            owner_id: user_id,
            status,
            start_date: payload.start_date,
            finish_date: payload.finish_date,
        }
    }

    /// The first member of a new project: its owner.
    pub fn owner_membership(project: &Project) -> (r: NewProjectMember)
        ensures
            r.project_id == project.id,
            r.user_id == project.owner_id,
    {
        NewProjectMember { project_id: project.id, user_id: project.owner_id }
    }

    /// The board of a new project, named after it.
    pub fn new_board(project: &Project) -> (r: NewBoard)
        ensures
            r.project_id == project.id,
            r.name == project.title,
    {
        NewBoard { project_id: project.id, name: project.title.clone() }
    }

    /// The four columns a new board starts with, ordered 1 to 4.
    pub fn default_columns(board_id: u128) -> (r: Vec<NewBoardColumn>)
        ensures
            r@.len() == 4,
            forall|i: int|
                0 <= i < 4 ==> (#[trigger] r@[i]).board_id == board_id && r@[i].name@ == default_column_name(i)
                    && r@[i].order_index == i + 1,
    {
        let mut v: Vec<NewBoardColumn> = Vec::new();
        v.push(NewBoardColumn { board_id, name: String::from_str("Todo"), order_index: 1 });
        v.push(NewBoardColumn { board_id, name: String::from_str("In progress"), order_index: 2 });
        v.push(NewBoardColumn { board_id, name: String::from_str("Ready to test"), order_index: 3 });
        v.push(NewBoardColumn { board_id, name: String::from_str("Done"), order_index: 4 });
        v
    }

    /// The first sprint of a new project: "Sprint 1", active, starting at
    /// `now`, with no goal and no end.
    pub fn first_sprint(project_id: u128, now: i64) -> (r: NewSprint)
        ensures
            r.project_id == project_id,
            r.name@ == "Sprint 1"@,
            r.goal is None,
            r.start_date == now,
            r.end_date is None,
            r.is_active,
    {
        NewSprint {
            project_id,
            name: String::from_str("Sprint 1"),
            goal: None,
            start_date: now,
            end_date: None,
            is_active: true,
        }
    }

    /// The trimmed title and description an edit of a project stores.
    pub fn project_update_text(payload: &UpdateProjectRequest) -> (r: (String, String))
        ensures
            r.0@ == trimmed(payload.title@),
            r.1@ == trimmed(payload.description@),
    {
        (trimmed_string(&payload.title), trimmed_string(&payload.description))
    }

    /// The note a creation stores.  When a parent is named, `parent` is the
    /// lookup of it (`None`: not found), and it must be a folder of the same
    /// project.
    pub fn create_note(payload: &CreateNoteRequest, project_id: u128, user_id: u128, parent: Option<ProjectNote>) -> (r: Result<NewProjectNote, AppError>)
        ensures
            payload.parent_id is Some && parent is None ==> rejects_not_found(r, "ไม่พบโฟลเดอร์ปลายทาง"@),
            parent matches Some(p) ==> (payload.parent_id is Some && p.project_id != project_id ==> rejects_bad_request(
                r,
                "โฟลเดอร์ปลายทางไม่ได้อยู่ในโปรเจกต์นี้"@,
            )),
            parent matches Some(p) ==> (payload.parent_id is Some && p.project_id == project_id && p.type_
                != NoteType::Folder ==> rejects_bad_request(r, "สามารถสร้างโน้ตไว้ภายใต้ folder เท่านั้น"@)),
            r is Ok <==> (payload.parent_id is None || is_folder_of(parent, project_id)),
            r matches Ok(n) ==> {
                &&& n.project_id == project_id
                &&& n.parent_id == payload.parent_id
                &&& n.type_ == payload.type_
                &&& n.title@ == trimmed(payload.title@)
                &&& opt_string_view(n.content) == note_content(payload.type_, opt_string_view(payload.content))
                &&& n.created_by == user_id
                &&& n.updated_by == user_id
            },
    {
        if payload.parent_id.is_some() {
            let p = match parent {
                Some(p) => p,
                None => return Err(not_found("ไม่พบโฟลเดอร์ปลายทาง")),
            };
            if p.project_id != project_id {
                return Err(bad_request("โฟลเดอร์ปลายทางไม่ได้อยู่ในโปรเจกต์นี้"));
            }
            if p.type_ != NoteType::Folder {
                return Err(bad_request("สามารถสร้างโน้ตไว้ภายใต้ folder เท่านั้น"));
            }
        }
        Ok(
            NewProjectNote {
                project_id,
                parent_id: payload.parent_id,
                type_: payload.type_,
                title: trimmed_string(&payload.title),
                content: content_for(payload.type_, &payload.content),
                created_by: user_id,
                updated_by: user_id,
            },
        )
    }

    /// The note, when it was found (`None`: not found) in the project.
    pub fn note_in_project(note: Option<ProjectNote>, project_id: u128) -> (r: Result<ProjectNote, AppError>)
        ensures
            note is None ==> rejects_not_found(r, "ไม่พบโน้ตนี้"@),
            note matches Some(n) && n.project_id != project_id ==> rejects_not_found(r, "ไม่พบโน้ตนี้ในโปรเจกต์"@),
            r is Ok <==> (note matches Some(n) && n.project_id == project_id),
            r is Ok ==> r->Ok_0 == note->0,
    {
        let n = match note {
            Some(n) => n,
            None => return Err(not_found("ไม่พบโน้ตนี้")),
        };
        if n.project_id != project_id {
            return Err(not_found("ไม่พบโน้ตนี้ในโปรเจกต์"));
        }
        Ok(n)
    }

    /// The title and content an edit of a found note stores: a folder keeps
    /// no content.
    pub fn update_note(payload: &UpdateNoteRequest, note: &ProjectNote) -> (r: (String, Option<String>))
        ensures
            r.0@ == trimmed(payload.title@),
            opt_string_view(r.1) == note_content(note.type_, opt_string_view(payload.content)),
    {
        (trimmed_string(&payload.title), content_for(note.type_, &payload.content))
    }

    /// The sprint, when it was found (`None`: not found) in the project.
    pub fn sprint_in_project(sprint: Option<Sprint>, project_id: u128) -> (r: Result<Sprint, AppError>)
        ensures
            sprint is None ==> rejects_not_found(r, "ไม่พบสปรินต์นี้"@),
            sprint matches Some(s) && s.project_id != project_id ==> rejects_not_found(r, "ไม่พบสปรินต์นี้ในโปรเจกต์"@),
            r is Ok <==> (sprint matches Some(s) && s.project_id == project_id),
            r is Ok ==> r->Ok_0 == sprint->0,
    {
        let s = match sprint {
            Some(s) => s,
            None => return Err(not_found("ไม่พบสปรินต์นี้")),
        };
        if s.project_id != project_id {
            return Err(not_found("ไม่พบสปรินต์นี้ในโปรเจกต์"));
        }
        Ok(s)
    }

    /// The sprint a creation stores: active only when the project has no
    /// active sprint yet.
    pub fn new_sprint(payload: &CreateSprintRequest, project_id: u128, has_active_sprint: bool) -> (r: NewSprint)
        ensures
            r.project_id == project_id,
            r.name@ == trimmed(payload.name@),
            opt_string_view(r.goal) == spec_normalize_optional(opt_string_view(payload.goal)),
            r.start_date == payload.start_date,
            r.end_date == payload.end_date,
            r.is_active == !has_active_sprint,
    {
        NewSprint {
            project_id,
            name: trimmed_string(&payload.name),
            goal: owned_optional_string(&payload.goal),
            start_date: payload.start_date,
            end_date: payload.end_date,
            is_active: !has_active_sprint,
        }
    }

    /// The changes an edit of a sprint stores.  Activating it is refused
    /// while another sprint of the project is active (`active_sprint_id`,
    /// looked up only when the edit activates).
    pub fn update_sprint(payload: &UpdateSprintRequest, sprint_id: u128, active_sprint_id: Option<u128>) -> (r: Result<SprintChangeset, AppError>)
        ensures
            activation_blocked(payload.is_active, sprint_id, active_sprint_id) ==> rejects_bad_request(
                r,
                "ไม่สามารถเปิดสปรินต์ได้ เพราะมีสปรินต์อื่นกำลังทำงานอยู่"@,
            ),
            r is Err <==> activation_blocked(payload.is_active, sprint_id, active_sprint_id),
            r matches Ok(c) ==> {
                &&& opt_string_view(c.name) == match opt_string_view(payload.name) {
                    Some(n) => Some(trimmed(n)),
                    None => None,
                }
                &&& c.goal.is_some() == payload.goal.is_some()
                &&& (payload.goal matches Some(g) ==> opt_string_view(c.goal->0) == match opt_string_view(g) {
                    Some(t) => Some(trimmed(t)),
                    None => None,
                })
                &&& c.start_date == payload.start_date
                &&& c.end_date == payload.end_date
                &&& c.is_active == payload.is_active
            },
    {
        if payload.is_active == Some(true) {
            if let Some(a) = active_sprint_id {
                if a != sprint_id {
                    return Err(bad_request("ไม่สามารถเปิดสปรินต์ได้ เพราะมีสปรินต์อื่นกำลังทำงานอยู่"));
                }
            }
        }
        let goal = match &payload.goal {
            Some(g) => Some(trimmed_optional(g)),
            None => None,
        };
        Ok(
            SprintChangeset {
                name: trimmed_optional(&payload.name),
                goal,
                start_date: payload.start_date,
                end_date: payload.end_date,
                is_active: payload.is_active,
            },
        )
    }

    /// The task, when it was found (`None`: not found).
    pub fn found_task(task: Option<Task>) -> (r: Result<Task, AppError>)
        ensures
            task is None ==> rejects_not_found(r, "ไม่พบ Task นี้"@),
            r is Ok <==> task is Some,
            r is Ok ==> r->Ok_0 == task->0,
    {
        match task {
            Some(t) => Ok(t),
            None => Err(not_found("ไม่พบ Task นี้")),
        }
    }

    /// The task a creation stores.  `board` is the project's board (`None`:
    /// not found); `column_in_board` whether the named column belongs to it;
    /// `first_column` the board's first column (`None`: there is none);
    /// `sprint_in_project` whether the named sprint belongs to the project.
    pub fn create_task(
        payload: &CreateTaskRequest,
        project_id: u128,
        user_id: u128,
        board: Option<u128>,
        column_in_board: bool,
        first_column: Option<u128>,
        sprint_in_project: bool,
    ) -> (r: Result<NewTask, AppError>)
        ensures
            board is None ==> rejects_not_found(r, "ไม่พบบอร์ดของโปรเจกต์นี้"@),
            board is Some && payload.column_id is Some && !column_in_board ==> rejects_bad_request(
                r,
                "column_id ไม่ได้อยู่ในบอร์ดของโปรเจกต์นี้"@,
            ),
            board is Some && payload.column_id is None && first_column is None ==> rejects_not_found(
                r,
                "ไม่พบคอลัมน์ในบอร์ดนี้"@,
            ),
            board is Some && (payload.column_id is Some ==> column_in_board) && (payload.column_id is None
                ==> first_column is Some) && payload.sprint_id is Some && !sprint_in_project ==> rejects_bad_request(
                r,
                "sprint_id ไม่ได้อยู่ในโปรเจกต์นี้"@,
            ),
            r is Ok <==> (board is Some && (payload.column_id is Some ==> column_in_board) && (
            payload.column_id is None ==> first_column is Some) && (payload.sprint_id is Some
                ==> sprint_in_project)),
            r matches Ok(t) ==> {
                &&& t.project_id == project_id
                &&& t.board_id == board->0
                &&& t.sprint_id == payload.sprint_id
                &&& t.column_id == match payload.column_id {
                    Some(c) => c,
                    None => first_column->0,
                }
                &&& t.title@ == trimmed(payload.title@)
                &&& t.description@ == trimmed(payload.description@)
                &&& t.type_ == payload.type_
                &&& t.priority == payload.priority
                &&& t.story_points == payload.story_points
                &&& t.assignee_id == payload.assignee_id
                &&& t.reporter_id == user_id
                &&& opt_string_view(t.tag) == spec_normalize_optional(opt_string_view(payload.tag))
            },
    {
        let board_id = match board {
            Some(b) => b,
            None => return Err(not_found("ไม่พบบอร์ดของโปรเจกต์นี้")),
        };
        let column_id = match payload.column_id {
            Some(c) => {
                if !column_in_board {
                    return Err(bad_request("column_id ไม่ได้อยู่ในบอร์ดของโปรเจกต์นี้"));
                }
                c
            },
            None => match first_column {
                Some(c) => c,
                None => return Err(not_found("ไม่พบคอลัมน์ในบอร์ดนี้")),
            },
        };
        if payload.sprint_id.is_some() && !sprint_in_project {
            return Err(bad_request("sprint_id ไม่ได้อยู่ในโปรเจกต์นี้"));
        }
        Ok(
            NewTask {
                project_id,
                board_id,
                sprint_id: payload.sprint_id,
                column_id,
                title: trimmed_string(&payload.title),
                description: trimmed_string(&payload.description),
                type_: payload.type_,
                priority: payload.priority,
                story_points: payload.story_points,
                assignee_id: payload.assignee_id,
                reporter_id: user_id,
                tag: owned_optional_string(&payload.tag),
            },
        )
    }

    /// The changes an edit of a task stores.  `column_in_board` is whether
    /// the named column belongs to the task's board, `sprint_in_project`
    /// whether the named sprint belongs to the task's project.
    pub fn update_task(payload: &UpdateTaskRequest, column_in_board: bool, sprint_in_project: bool) -> (r: Result<TaskChangeset, AppError>)
        ensures
            payload.column_id is Some && !column_in_board ==> rejects_bad_request(
                r,
                "column_id ไม่ได้อยู่ในบอร์ดของ Task นี้"@,
            ),
            (payload.column_id is Some ==> column_in_board) && names_sprint(payload.sprint_id)
                && !sprint_in_project ==> rejects_bad_request(r, "sprint_id ไม่ได้อยู่ในโปรเจกต์ของ Task นี้"@),
            r is Ok <==> ((payload.column_id is Some ==> column_in_board) && (names_sprint(payload.sprint_id)
                ==> sprint_in_project)),
            r matches Ok(c) ==> {
                &&& opt_string_view(c.title) == match opt_string_view(payload.title) {
                    Some(t) => Some(trimmed(t)),
                    None => None,
                }
                &&& opt_string_view(c.description) == match opt_string_view(payload.description) {
                    Some(t) => Some(trimmed(t)),
                    None => None,
                }
                &&& c.column_id == payload.column_id
                &&& c.type_ == payload.type_
                &&& c.priority == payload.priority
                &&& c.story_points == payload.story_points
                &&& c.sprint_id == payload.sprint_id
                &&& c.assignee_id == payload.assignee_id
                &&& c.tag.is_some() == payload.tag.is_some()
                &&& (payload.tag matches Some(g) ==> opt_string_view(c.tag->0) == match opt_string_view(g) {
                    Some(t) => Some(trimmed(t)),
                    None => None,
                })
            },
    {
        if payload.column_id.is_some() && !column_in_board {
            return Err(bad_request("column_id ไม่ได้อยู่ในบอร์ดของ Task นี้"));
        }
        if let Some(Some(_)) = payload.sprint_id {
            if !sprint_in_project {
                return Err(bad_request("sprint_id ไม่ได้อยู่ในโปรเจกต์ของ Task นี้"));
            }
        }
        let tag = match &payload.tag {
            Some(t) => Some(trimmed_optional(t)),
            None => None,
        };
        Ok(
            TaskChangeset {
                title: trimmed_optional(&payload.title),
                description: trimmed_optional(&payload.description),
                column_id: payload.column_id,
                type_: payload.type_,
                priority: payload.priority,
                story_points: payload.story_points,
                sprint_id: payload.sprint_id,
                assignee_id: payload.assignee_id,
                tag,
            },
        )
    }

    /// The comment a creation stores: the trimmed text, by the user.
    pub fn new_comment(payload: &CreateCommentRequest, task_id: u128, user_id: u128) -> (r: NewTaskComment)
        ensures
            r.task_id == task_id,
            r.user_id == user_id,
            r.content@ == trimmed(payload.content@),
    {
        NewTaskComment { task_id, user_id, content: trimmed_string(&payload.content) }
    }

    /// A page of members, each row answered in order.
    pub fn member_page(members: Vec<MemberRow>, total_items: i64, page: i64, limit: i64) -> (r: PaginatedData<MemberResponse>)
        ensures
            r.items@.len() == members@.len(),
            forall|i: int| 0 <= i < members@.len() ==> answers_member(#[trigger] r.items@[i], members@[i]),
            r.total_items == total_items,
            r.total_pages == spec_total_pages(total_items as int, limit as int),
            r.current_page == page,
    {
        PaginatedData::new(to_member_responses(members), total_items, page, limit)
    }
}

// ===== Lookups with the last entry winning =====

/// The member count of a project: the last count listed for it, else 0.
pub open spec fn member_count_of(counts: Seq<(u128, i64)>, id: u128) -> i64
    decreases counts.len(),
{
    if counts.len() == 0 {
        0
    } else if counts.last().0 == id {
        counts.last().1
    } else {
        member_count_of(counts.drop_last(), id)
    }
}

/// The assignee shown for a user: the last entry for that user.
pub open spec fn assignee_of(assignees: Seq<TaskAssigneeResponse>, id: u128) -> Option<TaskAssigneeResponse>
    decreases assignees.len(),
{
    if assignees.len() == 0 {
        None
    } else if assignees.last().user_id == id {
        Some(assignees.last())
    } else {
        assignee_of(assignees.drop_last(), id)
    }
}

fn count_lookup(counts: &Vec<(u128, i64)>, id: u128) -> (r: i64)
    ensures
        r == member_count_of(counts@, id),
{
    let mut i = counts.len();
    while i > 0
        invariant
            0 <= i <= counts@.len(),
            member_count_of(counts@, id) == member_count_of(counts@.take(i as int), id),
        decreases i,
    {
        proof {
            let t = counts@.take(i as int);
            assert(t.drop_last() == counts@.take(i - 1));
        }
        if counts[i - 1].0 == id {
            return counts[i - 1].1;
        }
        i = i - 1;
    }
    0
}

fn clone_assignee(a: &TaskAssigneeResponse) -> (r: TaskAssigneeResponse)
    ensures
        r == *a,
{
    TaskAssigneeResponse {
        user_id: a.user_id,
        first_name: clone_opt_string(&a.first_name),
        last_name: clone_opt_string(&a.last_name),
    }
}

fn assignee_lookup(assignees: &Vec<TaskAssigneeResponse>, id: u128) -> (r: Option<TaskAssigneeResponse>)
    ensures
        r == assignee_of(assignees@, id),
{
    let mut i = assignees.len();
    while i > 0
        invariant
            0 <= i <= assignees@.len(),
            assignee_of(assignees@, id) == assignee_of(assignees@.take(i as int), id),
        decreases i,
    {
        proof {
            let t = assignees@.take(i as int);
            assert(t.drop_last() == assignees@.take(i - 1));
        }
        if assignees[i - 1].user_id == id {
            return Some(clone_assignee(&assignees[i - 1]));
        }
        i = i - 1;
    }
    None
}

impl ProjectService {
    /// The user's projects, each with its member count (0 when none is
    /// listed).
    pub fn list_projects(projects: Vec<Project>, counts: Vec<(u128, i64)>) -> (r: Vec<ProjectResponse>)
        ensures
            r@.len() == projects@.len(),
            forall|i: int|
                0 <= i < r@.len() ==> answers_project(
                    #[trigger] r@[i],
                    projects@[i],
                    member_count_of(counts@, projects@[i].id),
                ),
    {
        let mut rest = projects;
        let ghost all = rest@;
        let mut out: Vec<ProjectResponse> = Vec::new();
        while rest.len() > 0
            invariant
                out@.len() + rest@.len() == all.len(),
                forall|j: int| 0 <= j < rest@.len() ==> rest@[j] == all[out@.len() + j],
                forall|j: int|
                    0 <= j < out@.len() ==> answers_project(
                        #[trigger] out@[j],
                        all[j],
                        member_count_of(counts@, all[j].id),
                    ),
            decreases rest@.len(),
        {
            let p = rest.remove(0);
            let c = count_lookup(&counts, p.id);
            out.push(to_project_response(p, c));
        }
        out
    }
}

/// The assignees of a project's tasks: one per member row.
pub fn get_task_assignees(members: Vec<MemberRow>) -> (r: Vec<TaskAssigneeResponse>)
    ensures
        r@.len() == members@.len(),
        forall|i: int|
            0 <= i < r@.len() ==> (#[trigger] r@[i]).user_id == members@[i].0 && r@[i].first_name
                == members@[i].2 && r@[i].last_name == members@[i].3,
{
    let mut rest = members;
    let ghost all = rest@;
    let mut out: Vec<TaskAssigneeResponse> = Vec::new();
    while rest.len() > 0
        invariant
            out@.len() + rest@.len() == all.len(),
            forall|j: int| 0 <= j < rest@.len() ==> rest@[j] == all[out@.len() + j],
            forall|j: int|
                0 <= j < out@.len() ==> (#[trigger] out@[j]).user_id == all[j].0 && out@[j].first_name
                    == all[j].2 && out@[j].last_name == all[j].3,
        decreases rest@.len(),
    {
        let (user_id, _, first_name, last_name, _) = rest.remove(0);
        out.push(TaskAssigneeResponse { user_id, first_name, last_name });
    }
    out
}

/// A task as answered, with its assignee looked up.
pub open spec fn answers_task(r: TaskResponse, t: Task, assignees: Seq<TaskAssigneeResponse>) -> bool {
    &&& r.id == t.id
    &&& r.project_id == t.project_id
    &&& r.board_id == t.board_id
    &&& r.sprint_id == t.sprint_id
    &&& r.column_id == t.column_id
    &&& r.title == t.title
    &&& r.description == t.description
    &&& r.type_ == t.type_
    &&& r.priority == t.priority
    &&& r.story_points == t.story_points
    &&& r.assignee_id == t.assignee_id
    &&& r.assignee == match t.assignee_id {
        Some(a) => assignee_of(assignees, a),
        None => None,
    }
    &&& r.reporter_id == t.reporter_id
    &&& r.tag == t.tag
    &&& r.created_at == t.created_at
    &&& r.updated_at == t.updated_at
}

pub fn to_task_response(task: Task, assignees: &Vec<TaskAssigneeResponse>) -> (r: TaskResponse)
    ensures
        answers_task(r, task, assignees@),
{
    let assignee = match task.assignee_id {
        Some(a) => assignee_lookup(assignees, a),
        None => None,
    };
    TaskResponse {
        id: task.id,
        project_id: task.project_id,
        board_id: task.board_id,
        sprint_id: task.sprint_id,
        column_id: task.column_id,
        title: task.title,
        description: task.description,
        type_: task.type_,
        priority: task.priority,
        story_points: task.story_points,
        assignee_id: task.assignee_id,
        assignee,
        reporter_id: task.reporter_id,
        tag: task.tag,
        created_at: task.created_at,
        updated_at: task.updated_at,
    }
}

/// Answers each task in order.
pub fn to_task_responses(tasks: Vec<Task>, assignees: &Vec<TaskAssigneeResponse>) -> (r: Vec<TaskResponse>)
    ensures
        r@.len() == tasks@.len(),
        forall|i: int| 0 <= i < r@.len() ==> answers_task(#[trigger] r@[i], tasks@[i], assignees@),
{
    let mut rest = tasks;
    let ghost all = rest@;
    let mut out: Vec<TaskResponse> = Vec::new();
    while rest.len() > 0
        invariant
            out@.len() + rest@.len() == all.len(),
            forall|j: int| 0 <= j < rest@.len() ==> rest@[j] == all[out@.len() + j],
            forall|j: int| 0 <= j < out@.len() ==> answers_task(#[trigger] out@[j], all[j], assignees@),
        decreases rest@.len(),
    {
        let t = rest.remove(0);
        out.push(to_task_response(t, assignees));
    }
    out
}

fn clone_task(t: &Task) -> (r: Task)
    ensures
        r == *t,
{
    Task {
        id: t.id,
        project_id: t.project_id,
        board_id: t.board_id,
        sprint_id: t.sprint_id,
        column_id: t.column_id,
        title: t.title.clone(),
        description: t.description.clone(),
        type_: t.type_,
        priority: t.priority,
        story_points: t.story_points,
        assignee_id: t.assignee_id,
        reporter_id: t.reporter_id,
        tag: clone_opt_string(&t.tag),
        created_at: t.created_at,
        updated_at: t.updated_at,
    }
}

// ===== Grouping under columns and boards =====

/// The tasks of a column, in order.
pub open spec fn tasks_in_column(tasks: Seq<Task>, column_id: u128) -> Seq<Task>
    decreases tasks.len(),
{
    if tasks.len() == 0 {
        tasks
    } else if tasks.last().column_id == column_id {
        tasks_in_column(tasks.drop_last(), column_id).push(tasks.last())
    } else {
        tasks_in_column(tasks.drop_last(), column_id)
    }
}

/// The tasks of sprint `sprint_id`, in order.
pub open spec fn tasks_in_sprint(tasks: Seq<Task>, sprint_id: u128) -> Seq<Task>
    decreases tasks.len(),
{
    if tasks.len() == 0 {
        tasks
    } else if tasks.last().sprint_id == Some(sprint_id) {
        tasks_in_sprint(tasks.drop_last(), sprint_id).push(tasks.last())
    } else {
        tasks_in_sprint(tasks.drop_last(), sprint_id)
    }
}

/// The tasks a kanban board shows: those of the active sprint, none when
/// the project has no active sprint.
pub open spec fn kanban_tasks(tasks: Seq<Task>, active_sprint: Option<Sprint>) -> Seq<Task> {
    match active_sprint {
        Some(s) => tasks_in_sprint(tasks, s.id),
        None => Seq::empty(),
    }
}

fn sprint_tasks(tasks: &Vec<Task>, sprint_id: u128) -> (r: Vec<Task>)
    ensures
        r@ == tasks_in_sprint(tasks@, sprint_id),
{
    let mut out: Vec<Task> = Vec::new();
    let mut i: usize = 0;
    while i < tasks.len()
        invariant
            0 <= i <= tasks@.len(),
            out@ == tasks_in_sprint(tasks@.take(i as int), sprint_id),
        decreases tasks@.len() - i,
    {
        proof {
            let t = tasks@.take(i + 1);
            assert(t.drop_last() == tasks@.take(i as int));
            assert(t.last() == tasks@[i as int]);
        }
        if tasks[i].sprint_id == Some(sprint_id) {
            out.push(clone_task(&tasks[i]));
        }
        i = i + 1;
    }
    proof {
        assert(tasks@.take(tasks@.len() as int) == tasks@);
    }
    out
}

/// No earlier entry has the same id: the entry that receives the grouped
/// rows (a later duplicate receives none).
pub open spec fn first_column_with_id(columns: Seq<BoardColumn>, c: int) -> bool {
    forall|j: int| 0 <= j < c ==> columns[j].id != columns[c].id
}

fn is_first_column(columns: &Vec<BoardColumn>, c: usize) -> (r: bool)
    requires
        c < columns@.len(),
    ensures
        r == first_column_with_id(columns@, c as int),
{
    let mut j: usize = 0;
    while j < c
        invariant
            0 <= j <= c < columns@.len(),
            forall|k: int| 0 <= k < j ==> columns@[k].id != columns@[c as int].id,
        decreases c - j,
    {
        if columns[j].id == columns[c].id {
            return false;
        }
        j = j + 1;
    }
    true
}

/// The tasks of a column as answered.
fn column_task_responses(tasks: &Vec<Task>, column_id: u128, assignees: &Vec<TaskAssigneeResponse>) -> (r: Vec<TaskResponse>)
    ensures
        r@.len() == tasks_in_column(tasks@, column_id).len(),
        forall|i: int|
            0 <= i < r@.len() ==> answers_task(#[trigger] r@[i], tasks_in_column(tasks@, column_id)[i], assignees@),
{
    let mut out: Vec<TaskResponse> = Vec::new();
    let mut i: usize = 0;
    while i < tasks.len()
        invariant
            0 <= i <= tasks@.len(),
            out@.len() == tasks_in_column(tasks@.take(i as int), column_id).len(),
            forall|j: int|
                0 <= j < out@.len() ==> answers_task(
                    #[trigger] out@[j],
                    tasks_in_column(tasks@.take(i as int), column_id)[j],
                    assignees@,
                ),
        decreases tasks@.len() - i,
    {
        proof {
            let t = tasks@.take(i + 1);
            assert(t.drop_last() == tasks@.take(i as int));
            assert(t.last() == tasks@[i as int]);
        }
        if tasks[i].column_id == column_id {
            out.push(to_task_response(clone_task(&tasks[i]), assignees));
        }
        i = i + 1;
    }
    proof {
        assert(tasks@.take(tasks@.len() as int) == tasks@);
    }
    out
}

/// A column of the board as answered, with its tasks.
pub open spec fn answers_kanban_column(
    r: KanbanColumnResponse,
    columns: Seq<BoardColumn>,
    c: int,
    tasks: Seq<Task>,
    assignees: Seq<TaskAssigneeResponse>,
) -> bool {
    let col = columns[c];
    let expected = if first_column_with_id(columns, c) {
        tasks_in_column(tasks, col.id)
    } else {
        Seq::<Task>::empty()
    };
    &&& r.id == col.id
    &&& r.name == col.name
    &&& r.order_index == col.order_index
    &&& r.tasks@.len() == expected.len()
    &&& forall|i: int| 0 <= i < expected.len() ==> answers_task(#[trigger] r.tasks@[i], expected[i], assignees)
}

impl ProjectService {
    /// The board with its columns in order, each holding the active
    /// sprint's tasks that are in it (a column listed twice shows them at
    /// its first place only; tasks of no listed column are left out).
    /// Without an active sprint every column is empty.
    pub fn get_kanban(
        board: Board,
        columns: Vec<BoardColumn>,
        active_sprint: Option<Sprint>,
        tasks: Vec<Task>,
        assignees: Vec<TaskAssigneeResponse>,
    ) -> (r: KanbanResponse)
        ensures
            r.board_id == board.id,
            r.board_name == board.name,
            match active_sprint {
                Some(s) => r.active_sprint matches Some(rs) && answers_sprint(rs, s),
                None => r.active_sprint is None,
            },
            r.columns@.len() == columns@.len(),
            forall|c: int|
                0 <= c < columns@.len() ==> answers_kanban_column(
                    #[trigger] r.columns@[c],
                    columns@,
                    c,
                    kanban_tasks(tasks@, active_sprint),
                    assignees@,
                ),
    {
        let shown = match &active_sprint {
            Some(s) => sprint_tasks(&tasks, s.id),
            None => Vec::new(),
        };
        let mut out: Vec<KanbanColumnResponse> = Vec::new();
        let n = columns.len();
        let mut c: usize = 0;
        while c < n
            invariant
                n == columns@.len(),
                0 <= c <= n,
                out@.len() == c,
                forall|k: int|
                    0 <= k < c ==> answers_kanban_column(#[trigger] out@[k], columns@, k, shown@, assignees@),
            decreases n - c,
        {
            let first = is_first_column(&columns, c);
            let col_tasks = if first {
                column_task_responses(&shown, columns[c].id, &assignees)
            } else {
                Vec::new()
            };
            out.push(
                KanbanColumnResponse {
                    id: columns[c].id,
                    name: columns[c].name.clone(),
                    order_index: columns[c].order_index,
                    tasks: col_tasks,
                },
            );
            proof {
                assert(answers_kanban_column(out@[c as int], columns@, c as int, shown@, assignees@));
            }
            c = c + 1;
        }
        let active = match active_sprint {
            Some(s) => Some(to_sprint_response(s)),
            None => None,
        };
        KanbanResponse { board_id: board.id, board_name: board.name, active_sprint: active, columns: out }
    }
}

/// The columns of a board, in order.
pub open spec fn columns_of_board(columns: Seq<BoardColumn>, board_id: u128) -> Seq<BoardColumn>
    decreases columns.len(),
{
    if columns.len() == 0 {
        columns
    } else if columns.last().board_id == board_id {
        columns_of_board(columns.drop_last(), board_id).push(columns.last())
    } else {
        columns_of_board(columns.drop_last(), board_id)
    }
}

/// No earlier board has the same id.
pub open spec fn first_board_with_id(boards: Seq<Board>, b: int) -> bool {
    forall|j: int| 0 <= j < b ==> boards[j].id != boards[b].id
}

pub open spec fn answers_board_column(r: BoardColumnResponse, c: BoardColumn) -> bool {
    r.id == c.id && r.name == c.name && r.order_index == c.order_index
}

/// A board as answered, with its columns.
pub open spec fn answers_board(r: BoardResponse, boards: Seq<Board>, b: int, columns: Seq<BoardColumn>) -> bool {
    let board = boards[b];
    let expected = if first_board_with_id(boards, b) {
        columns_of_board(columns, board.id)
    } else {
        Seq::<BoardColumn>::empty()
    };
    &&& r.id == board.id
    &&& r.project_id == board.project_id
    &&& r.name == board.name
    &&& r.columns@.len() == expected.len()
    &&& forall|i: int| 0 <= i < expected.len() ==> answers_board_column(#[trigger] r.columns@[i], expected[i])
}

fn is_first_board(boards: &Vec<Board>, b: usize) -> (r: bool)
    requires
        b < boards@.len(),
    ensures
        r == first_board_with_id(boards@, b as int),
{
    let mut j: usize = 0;
    while j < b
        invariant
            0 <= j <= b < boards@.len(),
            forall|k: int| 0 <= k < j ==> boards@[k].id != boards@[b as int].id,
        decreases b - j,
    {
        if boards[j].id == boards[b].id {
            return false;
        }
        j = j + 1;
    }
    true
}

fn board_column_responses(columns: &Vec<BoardColumn>, board_id: u128) -> (r: Vec<BoardColumnResponse>)
    ensures
        r@.len() == columns_of_board(columns@, board_id).len(),
        forall|i: int| 0 <= i < r@.len() ==> answers_board_column(#[trigger] r@[i], columns_of_board(columns@, board_id)[i]),
{
    let mut out: Vec<BoardColumnResponse> = Vec::new();
    let mut i: usize = 0;
    while i < columns.len()
        invariant
            0 <= i <= columns@.len(),
            out@.len() == columns_of_board(columns@.take(i as int), board_id).len(),
            forall|j: int|
                0 <= j < out@.len() ==> answers_board_column(
                    #[trigger] out@[j],
                    columns_of_board(columns@.take(i as int), board_id)[j],
                ),
        decreases columns@.len() - i,
    {
        proof {
            let t = columns@.take(i + 1);
            assert(t.drop_last() == columns@.take(i as int));
            assert(t.last() == columns@[i as int]);
        }
        if columns[i].board_id == board_id {
            out.push(
                BoardColumnResponse {
                    id: columns[i].id,
                    name: columns[i].name.clone(),
                    order_index: columns[i].order_index,
                },
            );
        }
        i = i + 1;
    }
    proof {
        assert(columns@.take(columns@.len() as int) == columns@);
    }
    out
}

impl ProjectService {
    /// The project's boards in order, each with its columns in the order
    /// listed (a board listed twice shows them at its first place only).
    pub fn get_boards(boards: Vec<Board>, columns: Vec<BoardColumn>) -> (r: Vec<BoardResponse>)
        ensures
            r@.len() == boards@.len(),
            forall|b: int| 0 <= b < boards@.len() ==> answers_board(#[trigger] r@[b], boards@, b, columns@),
    {
        let mut out: Vec<BoardResponse> = Vec::new();
        let n = boards.len();
        let mut b: usize = 0;
        while b < n
            invariant
                n == boards@.len(),
                0 <= b <= n,
                out@.len() == b,
                forall|k: int| 0 <= k < b ==> answers_board(#[trigger] out@[k], boards@, k, columns@),
            decreases n - b,
        {
            let first = is_first_board(&boards, b);
            let cols = if first {
                board_column_responses(&columns, boards[b].id)
            } else {
                Vec::new()
            };
            out.push(
                BoardResponse {
                    id: boards[b].id,
                    project_id: boards[b].project_id,
                    name: boards[b].name.clone(),
                    columns: cols,
                },
            );
            proof {
                assert(answers_board(out@[b as int], boards@, b as int, columns@));
            }
            b = b + 1;
        }
        out
    }
}

// ===== The note tree =====

/// The notes filed under `parent`, in order.
pub open spec fn children_of(notes: Seq<ProjectNote>, parent: Option<u128>) -> Seq<ProjectNote>
    decreases notes.len(),
{
    if notes.len() == 0 {
        notes
    } else if notes.last().parent_id == parent {
        children_of(notes.drop_last(), parent).push(notes.last())
    } else {
        children_of(notes.drop_last(), parent)
    }
}

/// The notes filed under any other parent, in order.
pub open spec fn others_of(notes: Seq<ProjectNote>, parent: Option<u128>) -> Seq<ProjectNote>
    decreases notes.len(),
{
    if notes.len() == 0 {
        notes
    } else if notes.last().parent_id == parent {
        others_of(notes.drop_last(), parent)
    } else {
        others_of(notes.drop_last(), parent).push(notes.last())
    }
}

/// `r` is the forest built under `parent` from the notes still waiting to be
/// placed (`before`), which leaves `after` waiting.  The notes filed under
/// `parent` are taken out of the waiting notes and become the nodes, in
/// order; each node's children are then built, in turn, from what is left,
/// so every note is placed at most once.
pub open spec fn built_forest(
    r: Seq<NoteResponse>,
    before: Seq<ProjectNote>,
    parent: Option<u128>,
    after: Seq<ProjectNote>,
) -> bool
    decreases r,
{
    let g = children_of(before, parent);
    &&& r.len() == g.len()
    &&& exists|states: Seq<Seq<ProjectNote>>|
        {
            &&& #[trigger] states.len() == g.len() + 1
            &&& states[0] == others_of(before, parent)
            &&& states[g.len() as int] == after
            &&& forall|i: int|
                0 <= i < g.len() ==> {
                    &&& answers_note_fields(#[trigger] r[i], g[i])
                    &&& built_forest(r[i].children@, states[i], Some(g[i].id), states[i + 1])
                }
        }
}

proof fn lemma_split_lengths(notes: Seq<ProjectNote>, parent: Option<u128>)
    ensures
        children_of(notes, parent).len() + others_of(notes, parent).len() == notes.len(),
    decreases notes.len(),
{
    if notes.len() > 0 {
        lemma_split_lengths(notes.drop_last(), parent);
    }
}

/// Takes the notes filed under `parent` out of the waiting notes.
fn take_children(pending: &mut Vec<ProjectNote>, parent: Option<u128>) -> (g: Vec<ProjectNote>)
    ensures
        g@ == children_of(old(pending)@, parent),
        final(pending)@ == others_of(old(pending)@, parent),
{
    let ghost all = pending@;
    let n = pending.len();
    let mut taken: Vec<ProjectNote> = Vec::new();
    let mut kept: Vec<ProjectNote> = Vec::new();
    let mut i: usize = 0;
    while pending.len() > 0
        invariant
            n == all.len(),
            i + pending@.len() == all.len(),
            forall|j: int| 0 <= j < pending@.len() ==> pending@[j] == all[i + j],
            taken@ == children_of(all.take(i as int), parent),
            kept@ == others_of(all.take(i as int), parent),
        decreases pending@.len(),
    {
        let note = pending.remove(0);
        proof {
            let t = all.take(i + 1);
            assert(t.drop_last() == all.take(i as int));
            assert(t.last() == note);
        }
        if note.parent_id == parent {
            taken.push(note);
        } else {
            kept.push(note);
        }
        i = i + 1;
    }
    proof {
        assert(all.take(i as int) == all);
    }
    *pending = kept;
    taken
}

/// Builds the forest under `parent` from the waiting notes.
pub fn build_children(parent: Option<u128>, pending: &mut Vec<ProjectNote>) -> (r: Vec<NoteResponse>)
    ensures
        built_forest(r@, old(pending)@, parent, final(pending)@),
        final(pending)@.len() <= old(pending)@.len(),
    decreases old(pending)@.len(),
{
    let ghost before = pending@;
    let mut nodes = take_children(pending, parent);
    proof {
        lemma_split_lengths(before, parent);
    }
    let ghost g = nodes@;
    let ghost mut states: Seq<Seq<ProjectNote>> = seq![pending@];
    let mut out: Vec<NoteResponse> = Vec::new();
    while nodes.len() > 0
        invariant
            before == old(pending)@,
            g == children_of(before, parent),
            g.len() + others_of(before, parent).len() == before.len(),
            out@.len() + nodes@.len() == g.len(),
            forall|j: int| 0 <= j < nodes@.len() ==> nodes@[j] == g[out@.len() + j],
            states.len() == out@.len() + 1,
            states[0] == others_of(before, parent),
            states[out@.len() as int] == pending@,
            pending@.len() <= others_of(before, parent).len(),
            forall|i: int|
                0 <= i < out@.len() ==> {
                    &&& answers_note_fields(#[trigger] out@[i], g[i])
                    &&& built_forest(out@[i].children@, states[i], Some(g[i].id), states[i + 1])
                },
        decreases nodes@.len(),
    {
        let note = nodes.remove(0);
        let ghost k = out@.len();
        let children = build_children(Some(note.id), pending);
        proof {
            states = states.push(pending@);
        }
        out.push(to_note_response_flat(note, children));
        proof {
            assert(out@[k as int].children@ == children@);
            assert(built_forest(out@[k as int].children@, states[k as int], Some(g[k as int].id), states[k as int + 1]));
        }
    }
    proof {
        assert(states.len() == g.len() + 1);
    }
    out
}

/// The notes of a project as a tree: the top-level notes in order, each
/// with the notes filed under it (see `built_forest`).
pub fn build_note_tree(notes: Vec<ProjectNote>) -> (r: Vec<NoteResponse>)
    ensures
        exists|after: Seq<ProjectNote>| built_forest(r@, notes@, None, after),
{
    let mut pending = notes;
    build_children(None, &mut pending)
}

// ===== Request rules =====

impl CreateProjectRequest {
    /// The broken rules: a title of 1 to 255 characters once trimmed, a description.
    pub fn validate(&self) -> (r: Vec<FieldError>)
        ensures
            issues(r@) == issue_if(!(1 <= char_len(trimmed(self.title@)) <= 255), "title"@, "invalid_title"@, None) + issue_if(char_len(self.description@) < 1, "description"@, "length"@, Some("description must not be empty"@)),
    {
        let mut errors: Vec<FieldError> = Vec::new();
        proof {
            assert(issues(errors@) =~= Seq::<Issue>::empty());
        }
        check_trimmed_len(&mut errors, "title", self.title.as_str(), 255, "invalid_title");
        check_length(&mut errors, "description", self.description.as_str(), Some(1), None, "description must not be empty");
        errors
    }
}

impl UpdateProjectRequest {
    /// The broken rules: a title of 1 to 255 characters once trimmed, a description.
    pub fn validate(&self) -> (r: Vec<FieldError>)
        ensures
            issues(r@) == issue_if(!(1 <= char_len(trimmed(self.title@)) <= 255), "title"@, "invalid_title"@, None) + issue_if(char_len(self.description@) < 1, "description"@, "length"@, Some("description must not be empty"@)),
    {
        let mut errors: Vec<FieldError> = Vec::new();
        proof {
            assert(issues(errors@) =~= Seq::<Issue>::empty());
        }
        check_trimmed_len(&mut errors, "title", self.title.as_str(), 255, "invalid_title");
        check_length(&mut errors, "description", self.description.as_str(), Some(1), None, "description must not be empty");
        errors
    }
}

impl AddProjectMemberRequest {
    /// The broken rules: an e-mail address.
    pub fn validate(&self) -> (r: Vec<FieldError>)
        ensures
            issues(r@) == issue_if(!email_valid(self.email@), "email"@, "email"@, Some("Invalid email format"@)),
    {
        let mut errors: Vec<FieldError> = Vec::new();
        proof {
            assert(issues(errors@) =~= Seq::<Issue>::empty());
        }
        check_email(&mut errors, "email", self.email.as_str(), "Invalid email format");
        errors
    }
}

impl CreateNoteRequest {
    /// The broken rules: a title of 1 to 255 characters once trimmed.
    pub fn validate(&self) -> (r: Vec<FieldError>)
        ensures
            issues(r@) == issue_if(!(1 <= char_len(trimmed(self.title@)) <= 255), "title"@, "invalid_title"@, None),
    {
        let mut errors: Vec<FieldError> = Vec::new();
        proof {
            assert(issues(errors@) =~= Seq::<Issue>::empty());
        }
        check_trimmed_len(&mut errors, "title", self.title.as_str(), 255, "invalid_title");
        errors
    }
}

impl UpdateNoteRequest {
    /// The broken rules: a title of 1 to 255 characters once trimmed.
    pub fn validate(&self) -> (r: Vec<FieldError>)
        ensures
            issues(r@) == issue_if(!(1 <= char_len(trimmed(self.title@)) <= 255), "title"@, "invalid_title"@, None),
    {
        let mut errors: Vec<FieldError> = Vec::new();
        proof {
            assert(issues(errors@) =~= Seq::<Issue>::empty());
        }
        check_trimmed_len(&mut errors, "title", self.title.as_str(), 255, "invalid_title");
        errors
    }
}

impl CreateSprintRequest {
    /// The broken rules: a name of 1 to 255 characters.
    pub fn validate(&self) -> (r: Vec<FieldError>)
        ensures
            issues(r@) == issue_if(char_len(self.name@) < 1 || char_len(self.name@) > 255, "name"@, "length"@, Some("name must be 1-255 characters long"@)),
    {
        let mut errors: Vec<FieldError> = Vec::new();
        proof {
            assert(issues(errors@) =~= Seq::<Issue>::empty());
        }
        check_length(&mut errors, "name", self.name.as_str(), Some(1), Some(255), "name must be 1-255 characters long");
        errors
    }
}

impl UpdateSprintRequest {
    /// The broken rules: a name, when given, of 1 to 255 characters.
    pub fn validate(&self) -> (r: Vec<FieldError>)
        ensures
            issues(r@) == match self.name { Some(x) => issue_if(char_len(x@) < 1 || char_len(x@) > 255, "name"@, "length"@, Some("name must be 1-255 characters long"@)), None => Seq::<Issue>::empty() },
    {
        let mut errors: Vec<FieldError> = Vec::new();
        proof {
            assert(issues(errors@) =~= Seq::<Issue>::empty());
        }
        match &self.name {
            Some(x) => {
                check_length(&mut errors, "name", x.as_str(), Some(1), Some(255), "name must be 1-255 characters long");
            },
            None => {
                proof {
                    assert(issues(errors@) =~= issues(errors@) + Seq::<Issue>::empty());
                }
            },
        }
        errors
    }
}

impl CreateTaskRequest {
    /// The broken rules: a title of 1 to 255 characters once trimmed, a description, a tag of at most 20 characters.
    pub fn validate(&self) -> (r: Vec<FieldError>)
        ensures
            issues(r@) == issue_if(!(1 <= char_len(trimmed(self.title@)) <= 255), "title"@, "invalid_title"@, None) + issue_if(char_len(self.description@) < 1, "description"@, "length"@, Some("description must not be empty"@)) + match self.tag { Some(x) => issue_if(char_len(x@) > 20, "tag"@, "length"@, Some("tag must not exceed 20 characters"@)), None => Seq::<Issue>::empty() },
    {
        let mut errors: Vec<FieldError> = Vec::new();
        proof {
            assert(issues(errors@) =~= Seq::<Issue>::empty());
        }
        check_trimmed_len(&mut errors, "title", self.title.as_str(), 255, "invalid_title");
        check_length(&mut errors, "description", self.description.as_str(), Some(1), None, "description must not be empty");
        match &self.tag {
            Some(x) => {
                check_length(&mut errors, "tag", x.as_str(), None, Some(20), "tag must not exceed 20 characters");
            },
            None => {
                proof {
                    assert(issues(errors@) =~= issues(errors@) + Seq::<Issue>::empty());
                }
            },
        }
        errors
    }
}

impl UpdateTaskRequest {
    /// The broken rules of the fields given: a title of 1 to 255 characters once trimmed, a description.
    pub fn validate(&self) -> (r: Vec<FieldError>)
        ensures
            issues(r@) == match self.title { Some(x) => issue_if(!(1 <= char_len(trimmed(x@)) <= 255), "title"@, "invalid_title"@, None), None => Seq::<Issue>::empty() } + match self.description { Some(x) => issue_if(char_len(x@) < 1, "description"@, "length"@, Some("description must not be empty"@)), None => Seq::<Issue>::empty() },
    {
        let mut errors: Vec<FieldError> = Vec::new();
        proof {
            assert(issues(errors@) =~= Seq::<Issue>::empty());
        }
        match &self.title {
            Some(x) => {
                check_trimmed_len(&mut errors, "title", x.as_str(), 255, "invalid_title");
            },
            None => {
                proof {
                    assert(issues(errors@) =~= issues(errors@) + Seq::<Issue>::empty());
                }
            },
        }
        match &self.description {
            Some(x) => {
                check_length(&mut errors, "description", x.as_str(), Some(1), None, "description must not be empty");
            },
            None => {
                proof {
                    assert(issues(errors@) =~= issues(errors@) + Seq::<Issue>::empty());
                }
            },
        }
        errors
    }
}

impl CreateCommentRequest {
    /// The broken rules: some content.
    pub fn validate(&self) -> (r: Vec<FieldError>)
        ensures
            issues(r@) == issue_if(char_len(self.content@) < 1, "content"@, "length"@, Some("content must not be empty"@)),
    {
        let mut errors: Vec<FieldError> = Vec::new();
        proof {
            assert(issues(errors@) =~= Seq::<Issue>::empty());
        }
        check_length(&mut errors, "content", self.content.as_str(), Some(1), None, "content must not be empty");
        errors
    }
}

/// The top of the note tree is the notes without a parent, in order.
pub proof fn law_tree_roots(r: Seq<NoteResponse>, notes: Seq<ProjectNote>, after: Seq<ProjectNote>)
    requires
        built_forest(r, notes, None, after),
    ensures
        r.len() == children_of(notes, None).len(),
        forall|i: int|
            0 <= i < r.len() ==> answers_note_fields(#[trigger] r[i], children_of(notes, None)[i])
                && r[i].parent_id is None,
{
    lemma_children_parent(notes, None);
    assert forall|i: int| 0 <= i < r.len() implies answers_note_fields(#[trigger] r[i], children_of(notes, None)[i])
        && r[i].parent_id is None by {
        let g = children_of(notes, None);
        let states = choose|states: Seq<Seq<ProjectNote>>|
            {
                &&& #[trigger] states.len() == g.len() + 1
                &&& states[0] == others_of(notes, None)
                &&& states[g.len() as int] == after
                &&& forall|k: int|
                    0 <= k < g.len() ==> {
                        &&& answers_note_fields(#[trigger] r[k], g[k])
                        &&& built_forest(r[k].children@, states[k], Some(g[k].id), states[k + 1])
                    }
            };
        assert(answers_note_fields(r[i], g[i]));
    }
}

proof fn lemma_children_parent(notes: Seq<ProjectNote>, parent: Option<u128>)
    ensures
        forall|i: int| 0 <= i < children_of(notes, parent).len() ==> (#[trigger] children_of(notes, parent)[i]).parent_id == parent,
    decreases notes.len(),
{
    if notes.len() > 0 {
        lemma_children_parent(notes.drop_last(), parent);
    }
}

} // verus!

verus! {

// ===== The active sprint of a project =====

/// No two sprints of the list are active at once.
pub open spec fn at_most_one_active(sprints: Seq<Sprint>) -> bool {
    forall|i: int, j: int|
        0 <= i < sprints.len() && 0 <= j < sprints.len() && i != j && #[trigger] sprints[i].is_active
            ==> !#[trigger] sprints[j].is_active
}

/// No two sprints of the list share an id.
pub open spec fn distinct_sprint_ids(sprints: Seq<Sprint>) -> bool {
    forall|i: int, j: int|
        0 <= i < sprints.len() && 0 <= j < sprints.len() && i != j ==> #[trigger] sprints[i].id
            != #[trigger] sprints[j].id
}

/// Whether some sprint of the list is active.
pub open spec fn has_active_sprint(sprints: Seq<Sprint>) -> bool {
    exists|i: int| 0 <= i < sprints.len() && #[trigger] sprints[i].is_active
}

/// The id of an active sprint of the list, if there is one (the lookup that
/// `update_sprint` is given).
pub open spec fn active_sprint_of(sprints: Seq<Sprint>) -> Option<u128> {
    if has_active_sprint(sprints) {
        Some(sprints[choose|i: int| 0 <= i < sprints.len() && #[trigger] sprints[i].is_active].id)
    } else {
        None
    }
}

/// The sprints after an edit of sprint `sprint_id` that sets its activity
/// to `is_active` (`None`: left as it is).
pub open spec fn with_activity(sprints: Seq<Sprint>, sprint_id: u128, is_active: Option<bool>) -> Seq<Sprint> {
    Seq::new(
        sprints.len(),
        |i: int|
            if sprints[i].id == sprint_id && is_active is Some {
                Sprint { is_active: is_active->0, ..sprints[i] }
            } else {
                sprints[i]
            },
    )
}

/// A project keeps at most one active sprint: an edit that `update_sprint`
/// lets through (one that does not activate a sprint while another one is
/// active) leaves at most one active, and so does adding the sprint that
/// `new_sprint` builds, which is active only when none was.
pub proof fn law_one_active_sprint(
    sprints: Seq<Sprint>,
    sprint_id: u128,
    is_active: Option<bool>,
    added: Sprint,
)
    requires
        at_most_one_active(sprints),
        distinct_sprint_ids(sprints),
    ensures
        !activation_blocked(is_active, sprint_id, active_sprint_of(sprints)) ==> at_most_one_active(
            with_activity(sprints, sprint_id, is_active),
        ),
        added.is_active == !has_active_sprint(sprints) ==> at_most_one_active(sprints.push(added)),
{
    let after = with_activity(sprints, sprint_id, is_active);
    if !activation_blocked(is_active, sprint_id, active_sprint_of(sprints)) {
        assert forall|i: int, j: int|
            0 <= i < after.len() && 0 <= j < after.len() && i != j && #[trigger] after[i].is_active
                implies !#[trigger] after[j].is_active by {
            if after[j].is_active {
                if is_active == Some(true) {
                    if has_active_sprint(sprints) {
                        let a = choose|k: int| 0 <= k < sprints.len() && #[trigger] sprints[k].is_active;
                        assert(sprints[a].id == sprint_id);
                        if sprints[i].id != sprint_id {
                            assert(sprints[i].is_active);
                            assert(sprints[i].id != sprints[a].id);
                        }
                        if sprints[j].id != sprint_id {
                            assert(sprints[j].is_active);
                            assert(sprints[j].id != sprints[a].id);
                        }
                        assert(sprints[i].id != sprints[j].id);
                    } else {
                        if sprints[i].id != sprint_id {
                            assert(sprints[i].is_active);
                        }
                        if sprints[j].id != sprint_id {
                            assert(sprints[j].is_active);
                        }
                        assert(sprints[i].id != sprints[j].id);
                    }
                } else {
                    assert(sprints[i].is_active);
                    assert(sprints[j].is_active);
                }
            }
        }
    }
    if added.is_active == !has_active_sprint(sprints) {
        let s2 = sprints.push(added);
        assert forall|i: int, j: int|
            0 <= i < s2.len() && 0 <= j < s2.len() && i != j && #[trigger] s2[i].is_active implies !#[trigger] s2[
            j].is_active by {
            if s2[j].is_active {
                if i == sprints.len() {
                    assert(sprints[j].is_active);
                } else if j == sprints.len() {
                    assert(sprints[i].is_active);
                } else {
                    assert(sprints[i].is_active);
                }
            }
        }
    }
}

} // verus!
