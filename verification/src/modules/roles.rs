//! Roles: who may list, grant, revoke and create them.
use crate::common::errors::{
    AppError, DbError, bad_request, forbidden, internal, rejects_bad_request, rejects_conflict,
    rejects_forbidden, rejects_internal,
};
use crate::common::text::{str_eq, str_trim, trimmed};
use vstd::prelude::*;

verus! {

/// A stored role.
pub struct Role {
    pub id: u128,
    pub name: String,
    pub description: Option<String>,
}

/// A role to store.
pub struct NewRole {
    pub name: String,
    pub description: Option<String>,
}

pub struct AssignRoleRequest {
    pub target_user_id: u128,
    pub role_id: u128,
}

pub struct RevokeRoleRequest {
    pub target_user_id: u128,
    pub role_id: u128,
}

pub struct CreateRoleRequest {
    pub name: String,
    pub description: Option<String>,
}

pub struct RoleService;

/// The caller holds the role `name`.
pub open spec fn holds(roles: Seq<String>, name: Seq<char>) -> bool {
    exists|i: int| 0 <= i < roles.len() && roles[i]@ == name
}

/// What listing roles answers.
pub open spec fn list_roles_answer(roles: Seq<String>, r: Result<(), AppError>) -> bool {
    &&& !(holds(roles, "super_admin"@) || holds(roles, "admin_roles"@)) ==> rejects_forbidden(
        r,
        "คุณไม่มีสิทธิ์ดูรายชื่อ Role (ต้องการสิทธิ์ super_admin หรือ admin_roles)"@,
    )
    &&& r is Ok <==> (holds(roles, "super_admin"@) || holds(roles, "admin_roles"@))
}

/// Whether a grant of the role named `target` is allowed (`None`: no such
/// role): `admin_roles` only by a super admin, any other role by a super
/// admin or a role admin.
pub open spec fn assign_answer(roles: Seq<String>, target: Option<String>, r: Result<(), AppError>) -> bool {
    match target {
        None => r is Err,
        Some(n) => r is Ok <==> if n@ == "admin_roles"@ {
            holds(roles, "super_admin"@)
        } else {
            holds(roles, "super_admin"@) || holds(roles, "admin_roles"@)
        },
    }
}

/// Whether a revocation is allowed: by a super admin or a role admin, and
/// never of the caller's own roles.
pub open spec fn revoke_answer(roles: Seq<String>, caller_id: u128, target_user_id: u128, r: Result<(), AppError>) -> bool {
    r is Ok <==> ((holds(roles, "super_admin"@) || holds(roles, "admin_roles"@)) && caller_id != target_user_id)
}

/// Whether creating a role is allowed: by a super admin.
pub open spec fn create_role_answer(roles: Seq<String>, r: Result<(), AppError>) -> bool {
    r is Ok <==> holds(roles, "super_admin"@)
}

fn has_role(roles: &Vec<String>, name: &str) -> (r: bool)
    ensures
        r == holds(roles@, name@),
{
    let mut i: usize = 0;
    while i < roles.len()
        invariant
            0 <= i <= roles@.len(),
            forall|k: int| 0 <= k < i ==> roles@[k]@ != name@,
        decreases roles@.len() - i,
    {
        if str_eq(roles[i].as_str(), name) {
            return true;
        }
        i = i + 1;
    }
    false
}

/// `str::to_lowercase`: Unicode lower case of a text.
pub uninterp spec fn unicode_lowercase(s: Seq<char>) -> Seq<char>;

/// `str::to_lowercase`, whose result is named `unicode_lowercase`.
#[verifier::external_body]
fn to_lowercase(s: &str) -> (r: String)
    ensures
        r@ == unicode_lowercase(s@),
{
    s.to_lowercase()
}

impl RoleService {
    /// Listing roles takes `super_admin` or `admin_roles`.
    pub fn can_list_roles(roles: &Vec<String>) -> (r: Result<(), AppError>)
        ensures
            list_roles_answer(roles@, r),
    {
        if !(has_role(roles, "super_admin") || has_role(roles, "admin_roles")) {
            return Err(forbidden("คุณไม่มีสิทธิ์ดูรายชื่อ Role (ต้องการสิทธิ์ super_admin หรือ admin_roles)"));
        }
        Ok(())
    }

    /// Whether the caller may grant the role named `target_role_name`
    /// (`None`: no role with the requested id): `admin_roles` only by a
    /// super admin, any other role by a super admin or a role admin.
    pub fn authorize_assign(roles: &Vec<String>, target_role_name: Option<String>) -> (r: Result<(), AppError>)
        ensures
            assign_answer(roles@, target_role_name, r),
            target_role_name is None ==> rejects_bad_request(r, "ไม่พบ Role ID นี้ในระบบ"@),
            target_role_name matches Some(n) ==> (n@ == "admin_roles"@ ==> if holds(roles@, "super_admin"@) {
                r is Ok
            } else {
                rejects_forbidden(r, "มีเพียง Super Admin เท่านั้นที่มอบสิทธิ์นี้ได้"@)
            }),
            target_role_name matches Some(n) ==> (n@ == "admin_shop"@ ==> if holds(roles@, "super_admin"@)
                || holds(roles@, "admin_roles"@) {
                r is Ok
            } else {
                rejects_forbidden(r, "คุณไม่มีสิทธิ์กำหนด Shop Admin"@)
            }),
            target_role_name matches Some(n) ==> (n@ != "admin_roles"@ && n@ != "admin_shop"@ ==> if holds(
                roles@,
                "super_admin"@,
            ) || holds(roles@, "admin_roles"@) {
                r is Ok
            } else {
                rejects_forbidden(r, "คุณไม่มีสิทธิ์กำหนดสิทธิ์นี้"@)
            }),
    {
        proof {
            reveal_strlit("admin_roles");
            reveal_strlit("admin_shop");
            assert("admin_roles"@[6] != "admin_shop"@[6]);
            assert("admin_roles"@ != "admin_shop"@);
        }
        let name = match target_role_name {
            Some(n) => n,
            None => return Err(bad_request("ไม่พบ Role ID นี้ในระบบ")),
        };
        let is_super_admin = has_role(roles, "super_admin");
        let is_admin_roles = has_role(roles, "admin_roles");
        if str_eq(name.as_str(), "admin_roles") {
            if !is_super_admin {
                return Err(forbidden("มีเพียง Super Admin เท่านั้นที่มอบสิทธิ์นี้ได้"));
            }
        } else if str_eq(name.as_str(), "admin_shop") {
            if !is_super_admin && !is_admin_roles {
                return Err(forbidden("คุณไม่มีสิทธิ์กำหนด Shop Admin"));
            }
        } else {
            if !is_super_admin && !is_admin_roles {
                return Err(forbidden("คุณไม่มีสิทธิ์กำหนดสิทธิ์นี้"));
            }
        }
        Ok(())
    }

    /// A failed grant is an internal error.
    pub fn assign_role(outcome: Result<usize, DbError>) -> (r: Result<(), AppError>)
        ensures
            outcome is Err ==> rejects_internal(r, "ไม่สามารถกำหนดสิทธิ์ได้"@),
            r is Ok <==> outcome is Ok,
    {
        match outcome {
            Ok(_) => Ok(()),
            Err(_) => Err(internal("ไม่สามารถกำหนดสิทธิ์ได้")),
        }
    }

    /// Revoking takes `super_admin` or `admin_roles`, and never one's own.
    pub fn authorize_revoke(roles: &Vec<String>, caller_id: u128, target_user_id: u128) -> (r: Result<(), AppError>)
        ensures
            revoke_answer(roles@, caller_id, target_user_id, r),
            !(holds(roles@, "super_admin"@) || holds(roles@, "admin_roles"@)) ==> rejects_forbidden(
                r,
                "คุณไม่มีสิทธิ์ถอดสิทธิ์ผู้ใช้งาน"@,
            ),
            (holds(roles@, "super_admin"@) || holds(roles@, "admin_roles"@)) && caller_id == target_user_id
                ==> rejects_bad_request(r, "ไม่สามารถถอดสิทธิ์ของตัวเองได้"@),
            r is Ok <==> ((holds(roles@, "super_admin"@) || holds(roles@, "admin_roles"@)) && caller_id
                != target_user_id),
    {
        if !(has_role(roles, "super_admin") || has_role(roles, "admin_roles")) {
            return Err(forbidden("คุณไม่มีสิทธิ์ถอดสิทธิ์ผู้ใช้งาน"));
        }
        if caller_id == target_user_id {
            return Err(bad_request("ไม่สามารถถอดสิทธิ์ของตัวเองได้"));
        }
        Ok(())
    }

    /// A revocation that failed is an internal error; one that removed
    /// nothing is refused.
    pub fn revoke_role(deleted_rows: Result<usize, DbError>) -> (r: Result<(), AppError>)
        ensures
            deleted_rows is Err ==> rejects_internal(r, "ระบบฐานข้อมูลขัดข้อง ไม่สามารถถอดสิทธิ์ได้"@),
            deleted_rows == Ok::<usize, DbError>(0) ==> rejects_bad_request(
                r,
                "ผู้ใช้งานคนนี้ไม่ได้มีสิทธิ์ดังกล่าวอยู่แล้ว หรือไม่มี Role นี้ในระบบ"@,
            ),
            r is Ok <==> (deleted_rows matches Ok(n) && n > 0),
    {
        match deleted_rows {
            Err(_) => Err(internal("ระบบฐานข้อมูลขัดข้อง ไม่สามารถถอดสิทธิ์ได้")),
            Ok(0) => Err(bad_request("ผู้ใช้งานคนนี้ไม่ได้มีสิทธิ์ดังกล่าวอยู่แล้ว หรือไม่มี Role นี้ในระบบ")),
            Ok(_) => Ok(()),
        }
    }

    /// Creating a role takes `super_admin`.
    pub fn can_create_role(roles: &Vec<String>) -> (r: Result<(), AppError>)
        ensures
            create_role_answer(roles@, r),
            !holds(roles@, "super_admin"@) ==> rejects_forbidden(
                r,
                "คุณไม่มีสิทธิ์สร้าง Role ใหม่ (ต้องการสิทธิ์ super_admin)"@,
            ),
            r is Ok <==> holds(roles@, "super_admin"@),
    {
        if !has_role(roles, "super_admin") {
            return Err(forbidden("คุณไม่มีสิทธิ์สร้าง Role ใหม่ (ต้องการสิทธิ์ super_admin)"));
        }
        Ok(())
    }

    /// Role names are stored trimmed and in lower case.
    pub fn normalize_role_name(name: &str) -> (r: String)
        ensures
            r@ == unicode_lowercase(trimmed(name@)),
    {
        to_lowercase(str_trim(name))
    }

    /// The role a creation stores, unless a role has that (normalized)
    /// name already (`existing`: the lookup of it).
    pub fn create_role(normalized_name: String, description: Option<String>, existing: Result<bool, DbError>) -> (r: Result<NewRole, AppError>)
        ensures
            existing is Err ==> rejects_internal(r, "Database Error"@),
            existing == Ok::<bool, DbError>(true) ==> rejects_conflict(
                r,
                "มีชื่อ Role '"@ + normalized_name@ + "' อยู่ในระบบแล้ว"@,
            ),
            existing == Ok::<bool, DbError>(false) ==> (r matches Ok(n) && n.name == normalized_name
                && n.description == description),
    {
        match existing {
            Err(_) => Err(internal("Database Error")),
            Ok(true) => {
                let mut msg = String::from_str("มีชื่อ Role '");
                msg.append(normalized_name.as_str());
                msg.append("' อยู่ในระบบแล้ว");
                Err(AppError::Conflict(msg))
            },
            Ok(false) => Ok(NewRole { name: normalized_name, description }),
        }
    }
}

} // verus!

verus! {

/// A role counts wherever it stands in the caller's list: a caller who has
/// `super_admin` at any place may list, create and grant roles, and may
/// revoke those of any other user.
pub proof fn law_super_admin_anywhere(
    roles: Seq<String>,
    i: int,
    target: String,
    caller_id: u128,
    target_user_id: u128,
    list_r: Result<(), AppError>,
    assign_r: Result<(), AppError>,
    revoke_r: Result<(), AppError>,
    create_r: Result<(), AppError>,
)
    requires
        0 <= i < roles.len(),
        roles[i]@ == "super_admin"@,
        list_roles_answer(roles, list_r),
        assign_answer(roles, Some(target), assign_r),
        revoke_answer(roles, caller_id, target_user_id, revoke_r),
        create_role_answer(roles, create_r),
    ensures
        list_r is Ok,
        assign_r is Ok,
        caller_id != target_user_id ==> revoke_r is Ok,
        create_r is Ok,
{
    assert(holds(roles, "super_admin"@));
}

/// A role admin may list roles and grant any role but `admin_roles`,
/// wherever `admin_roles` stands in the caller's list.
pub proof fn law_role_admin_anywhere(
    roles: Seq<String>,
    i: int,
    target: String,
    list_r: Result<(), AppError>,
    assign_r: Result<(), AppError>,
)
    requires
        0 <= i < roles.len(),
        roles[i]@ == "admin_roles"@,
        list_roles_answer(roles, list_r),
        assign_answer(roles, Some(target), assign_r),
        target@ != "admin_roles"@,
    ensures
        list_r is Ok,
        assign_r is Ok,
{
    assert(holds(roles, "admin_roles"@));
}

/// A caller none of whose roles is `super_admin` or `admin_roles` may do
/// none of these.
pub proof fn law_no_admin_role_no_access(
    roles: Seq<String>,
    target: Option<String>,
    caller_id: u128,
    target_user_id: u128,
    list_r: Result<(), AppError>,
    assign_r: Result<(), AppError>,
    revoke_r: Result<(), AppError>,
    create_r: Result<(), AppError>,
)
    requires
        forall|i: int| 0 <= i < roles.len() ==> roles[i]@ != "super_admin"@ && roles[i]@ != "admin_roles"@,
        list_roles_answer(roles, list_r),
        assign_answer(roles, target, assign_r),
        revoke_answer(roles, caller_id, target_user_id, revoke_r),
        create_role_answer(roles, create_r),
    ensures
        list_r is Err,
        assign_r is Err,
        revoke_r is Err,
        create_r is Err,
{
}

/// Without `super_admin` anywhere in the caller's list, no one may create
/// a role or grant `admin_roles`, whatever other roles the caller has.
pub proof fn law_only_super_admin_creates_or_grants_role_admin(
    roles: Seq<String>,
    target: String,
    assign_r: Result<(), AppError>,
    create_r: Result<(), AppError>,
)
    requires
        forall|i: int| 0 <= i < roles.len() ==> roles[i]@ != "super_admin"@,
        target@ == "admin_roles"@,
        assign_answer(roles, Some(target), assign_r),
        create_role_answer(roles, create_r),
    ensures
        assign_r is Err,
        create_r is Err,
{
}

/// The answers depend on which roles the caller has, not on their order
/// or repetition: two lists with the same roles get the same answers.
pub proof fn law_role_order_irrelevant(
    a: Seq<String>,
    b: Seq<String>,
    target: Option<String>,
    caller_id: u128,
    target_user_id: u128,
    list_a: Result<(), AppError>,
    list_b: Result<(), AppError>,
    assign_a: Result<(), AppError>,
    assign_b: Result<(), AppError>,
    revoke_a: Result<(), AppError>,
    revoke_b: Result<(), AppError>,
    create_a: Result<(), AppError>,
    create_b: Result<(), AppError>,
)
    requires
        forall|x: String| a.contains(x) <==> b.contains(x),
        list_roles_answer(a, list_a),
        list_roles_answer(b, list_b),
        assign_answer(a, target, assign_a),
        assign_answer(b, target, assign_b),
        revoke_answer(a, caller_id, target_user_id, revoke_a),
        revoke_answer(b, caller_id, target_user_id, revoke_b),
        create_role_answer(a, create_a),
        create_role_answer(b, create_b),
    ensures
        list_a is Ok <==> list_b is Ok,
        assign_a is Ok <==> assign_b is Ok,
        revoke_a is Ok <==> revoke_b is Ok,
        create_a is Ok <==> create_b is Ok,
{
    lemma_same_roles_hold(a, b, "super_admin"@);
    lemma_same_roles_hold(a, b, "admin_roles"@);
}

proof fn lemma_same_roles_hold(a: Seq<String>, b: Seq<String>, name: Seq<char>)
    requires
        forall|x: String| a.contains(x) <==> b.contains(x),
    ensures
        holds(a, name) <==> holds(b, name),
{
    if holds(a, name) {
        let i = choose|i: int| 0 <= i < a.len() && a[i]@ == name;
        assert(a.contains(a[i]));
        assert(b.contains(a[i]));
        let j = choose|j: int| 0 <= j < b.len() && b[j] == a[i];
        assert(b[j]@ == name);
    }
    if holds(b, name) {
        let j = choose|j: int| 0 <= j < b.len() && b[j]@ == name;
        assert(b.contains(b[j]));
        assert(a.contains(b[j]));
        let i = choose|i: int| 0 <= i < a.len() && a[i] == b[j];
        assert(a[i]@ == name);
    }
}

} // verus!
