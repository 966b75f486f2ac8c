//! Property types (named lists of options, identified by an upper-case
//! code) and their options.
use crate::common::errors::{
    AppError, DbError, forbidden, internal, not_found, rejects_conflict, rejects_forbidden,
    rejects_internal, rejects_not_found,
};
use crate::common::jwt::Claims;
use crate::common::text::{str_trim, trimmed};
use crate::common::validation::{
    FieldError, Issue, issues, issue_if, char_len, email_valid, check_trimmed_len, check_max_chars,
    check_length, check_range, check_email,
};
use vstd::prelude::*;

verus! {

/// A stored property type (instants are Unix timestamps).
pub struct PropertyType {
    pub id: u128,
    pub name: String,
    pub code: String,
    pub description: Option<String>,
    pub created_by: u128,
    pub updated_by: u128,
    pub created_at: i64,
    pub updated_at: i64,
}

pub struct PropertyOption {
    pub id: u128,
    pub property_type_id: u128,
    pub sort_order: i32,
    pub label: String,
    pub value: String,
    pub is_active: bool,
    pub created_by: u128,
    pub created_at: i64,
    pub updated_at: i64,
}

pub struct NewPropertyType {
    pub name: String,
    pub code: String,
    pub description: Option<String>,
    pub created_by: u128,
    pub updated_by: u128,
}

pub struct UpdatePropertyType {
    pub id: u128,
    pub name: String,
    pub code: String,
    pub description: Option<String>,
    pub updated_by: u128,
}

pub struct NewPropertyOption {
    pub property_type_id: u128,
    pub sort_order: i32,
    pub label: String,
    pub value: String,
    pub is_active: bool,
    pub created_by: u128,
}

pub struct CreatePropertyTypeRequest {
    pub name: String,
    pub code: String,
    pub description: Option<String>,
}

pub struct UpdatePropertyTypeRequest {
    pub id: u128,
    pub name: String,
    pub code: String,
    pub description: Option<String>,
}

pub struct CreatePropertyOptionRequest {
    pub label: String,
    pub value: String,
    pub property_type_id: u128,
}

pub struct UpdatePropertyOptionRequest {
    pub id: u128,
    pub label: String,
    pub value: String,
    pub sort_order: i32,
    pub is_active: bool,
}

pub struct UpdateStatusRequest {
    pub is_active: bool,
}

pub struct PropertyFilterQuery {
    pub page: Option<i64>,
    pub limit: Option<i64>,
    pub name: Option<String>,
    pub code: Option<String>,
}

/// A property type as listed (its creation time as a Unix timestamp).
pub struct PropertyTypeData {
    pub id: u128,
    pub name: String,
    pub code: String,
    pub description: Option<String>,
    pub created_at: i64,
}

pub struct PropertyOptionData {
    pub id: u128,
    pub sort_order: i32,
    pub label: String,
    pub value: String,
    pub is_active: bool,
}

pub struct PropertyResponse {
    pub id: u128,
    pub name: String,
    pub code: String,
    pub description: Option<String>,
    pub options: Vec<PropertyOptionData>,
}

pub struct PropertyService;

impl PropertyResponse {
    /// A property type with its options.
    pub fn from_tuple(data: (PropertyTypeData, Vec<PropertyOptionData>)) -> (r: Self)
        ensures
            r.id == data.0.id,
            r.name == data.0.name,
            r.code == data.0.code,
            r.description == data.0.description,
            r.options == data.1,
    {
        let (pt, opts) = data;
        PropertyResponse { id: pt.id, name: pt.name, code: pt.code, description: pt.description, options: opts }
    }
}

/// ASCII upper case of a character; any other character is kept.
pub open spec fn ascii_upper(c: char) -> char {
    if 'a' <= c && c <= 'z' {
        ((c as int) - 32) as char
    } else {
        c
    }
}

/// `str::to_ascii_uppercase`: each ASCII letter in upper case.
pub open spec fn ascii_uppercase(s: Seq<char>) -> Seq<char> {
    Seq::new(s.len(), |i: int| ascii_upper(s[i]))
}

/// `str::to_ascii_uppercase`.
#[verifier::external_body]
fn to_ascii_uppercase(s: &str) -> (r: String)
    ensures
        r@ == ascii_uppercase(s@),
{
    s.to_ascii_uppercase()
}

impl PropertyService {
    /// Property data takes an admin (`super_admin` or `admin`).
    pub fn require_admin(claims: &Claims, message: &str) -> (r: Result<(), AppError>)
        ensures
            !(claims.role@ == "super_admin"@ || claims.role@ == "admin"@) ==> rejects_forbidden(r, message@),
            r is Ok <==> (claims.role@ == "super_admin"@ || claims.role@ == "admin"@),
    {
        if !claims.is_admin() {
            return Err(forbidden(message));
        }
        Ok(())
    }

    pub fn get_property_type() {
    }

    /// A property type with its options, from the lookup of it.
    pub fn get_one_property_type(found: Result<(PropertyTypeData, Vec<PropertyOptionData>), DbError>) -> (r: Result<PropertyResponse, AppError>)
        ensures
            found == Err::<(PropertyTypeData, Vec<PropertyOptionData>), DbError>(DbError::NotFound) ==> rejects_not_found(
                r,
                "ไม่พบ Property Type ที่ระบุ"@,
            ),
            found matches Err(e) ==> (e != DbError::NotFound ==> rejects_internal(
                r,
                "ไม่สามารถดึงข้อมูล Property Type ได้"@,
            )),
            found matches Ok(d) ==> (r matches Ok(p) && p.id == d.0.id && p.name == d.0.name && p.code == d.0.code
                && p.description == d.0.description && p.options == d.1),
    {
        match found {
            Ok(d) => Ok(PropertyResponse::from_tuple(d)),
            Err(DbError::NotFound) => Err(not_found("ไม่พบ Property Type ที่ระบุ")),
            Err(_) => Err(internal("ไม่สามารถดึงข้อมูล Property Type ได้")),
        }
    }

    /// Codes are stored trimmed and in ASCII upper case.
    pub fn normalize_code(code: &str) -> (r: String)
        ensures
            r@ == ascii_uppercase(trimmed(code@)),
    {
        to_ascii_uppercase(str_trim(code))
    }

    /// The property type a creation stores, unless its name or its
    /// normalized code is taken (`name_taken`, `code_taken`: the lookups).
    pub fn create_property_type(
        name: &str,
        upper_code: String,
        description: Option<String>,
        created_by: u128,
        name_taken: Result<bool, DbError>,
        code_taken: Result<bool, DbError>,
    ) -> (r: Result<NewPropertyType, AppError>)
        ensures
            name_taken is Err ==> rejects_internal(r, "Database Error"@),
            name_taken == Ok::<bool, DbError>(true) ==> rejects_conflict(
                r,
                "มีชื่อ Property Type '"@ + name@ + "' อยู่ในระบบแล้ว"@,
            ),
            name_taken == Ok::<bool, DbError>(false) && code_taken is Err ==> rejects_internal(r, "Database Error"@),
            name_taken == Ok::<bool, DbError>(false) && code_taken == Ok::<bool, DbError>(true) ==> rejects_conflict(
                r,
                "มีรหัส Property Type '"@ + upper_code@ + "' อยู่ในระบบแล้ว"@,
            ),
            name_taken == Ok::<bool, DbError>(false) && code_taken == Ok::<bool, DbError>(false) ==> (r matches Ok(
                p,
            ) && p.name@ == name@ && p.code == upper_code && p.description == description && p.created_by
                == created_by && p.updated_by == created_by),
    {
        match name_taken {
            Err(_) => return Err(internal("Database Error")),
            Ok(true) => {
                let mut msg = String::from_str("มีชื่อ Property Type '");
                msg.append(name);
                msg.append("' อยู่ในระบบแล้ว");
                return Err(AppError::Conflict(msg));
            },
            Ok(false) => {},
        }
        match code_taken {
            Err(_) => return Err(internal("Database Error")),
            Ok(true) => {
                let mut msg = String::from_str("มีรหัส Property Type '");
                msg.append(upper_code.as_str());
                msg.append("' อยู่ในระบบแล้ว");
                return Err(AppError::Conflict(msg));
            },
            Ok(false) => {},
        }
        Ok(
            NewPropertyType {
                name: String::from_str(name),
                code: upper_code,
                description,
                created_by,
                updated_by: created_by,
            },
        )
    }

    pub fn update_property_type() {
    }

    pub fn delete_property_type() {
    }

    /// The option a creation stores, last in the order, unless the type
    /// has an option with that value already (`value_taken`, `count`: the
    /// lookups).
    pub fn create_property_option(
        property_type_id: u128,
        label: String,
        value: String,
        created_by: u128,
        value_taken: Result<bool, DbError>,
        count: Result<i64, DbError>,
    ) -> (r: Result<NewPropertyOption, AppError>)
        requires
            count matches Ok(c) ==> (c as i32) < i32::MAX,
        ensures
            value_taken is Err ==> rejects_internal(r, "ไม่สามารถตรวจสอบ Property Option ได้"@),
            value_taken == Ok::<bool, DbError>(true) ==> rejects_conflict(
                r,
                "มี Property Option value '"@ + value@ + "' อยู่ในระบบแล้ว"@,
            ),
            value_taken == Ok::<bool, DbError>(false) && count is Err ==> rejects_internal(
                r,
                "ไม่สามารถนับจำนวน Property Option ได้"@,
            ),
            value_taken == Ok::<bool, DbError>(false) ==> (count matches Ok(c) ==> (r matches Ok(o)
                && o.property_type_id == property_type_id && o.sort_order == (c as i32) + 1 && o.label == label
                && o.value == value && o.is_active && o.created_by == created_by)),
    {
        match value_taken {
            Err(_) => return Err(internal("ไม่สามารถตรวจสอบ Property Option ได้")),
            Ok(true) => {
                let mut msg = String::from_str("มี Property Option value '");
                msg.append(value.as_str());
                msg.append("' อยู่ในระบบแล้ว");
                return Err(AppError::Conflict(msg));
            },
            Ok(false) => {},
        }
        let c = match count {
            Err(_) => return Err(internal("ไม่สามารถนับจำนวน Property Option ได้")),
            Ok(c) => c,
        };
        Ok(
            NewPropertyOption {
                property_type_id,
                sort_order: c as i32 + 1,
                label,
                value,
                is_active: true,
                created_by,
            },
        )
    }

    pub fn get_property_option() {
    }

    pub fn update_property_is_active() {
    }

    pub fn delete_property_option() {
    }
}

// ===== Request rules =====

impl CreatePropertyTypeRequest {
    /// The broken rules: a name and a code.
    pub fn validate(&self) -> (r: Vec<FieldError>)
        ensures
            issues(r@) == issue_if(char_len(self.name@) < 1, "name"@, "length"@, Some("Please provide the name of the Property Type to create"@)) + issue_if(char_len(self.code@) < 1, "code"@, "length"@, Some("Please provide the Code of the Property Type to create"@)),
    {
        let mut errors: Vec<FieldError> = Vec::new();
        proof {
            assert(issues(errors@) =~= Seq::<Issue>::empty());
        }
        check_length(&mut errors, "name", self.name.as_str(), Some(1), None, "Please provide the name of the Property Type to create");
        check_length(&mut errors, "code", self.code.as_str(), Some(1), None, "Please provide the Code of the Property Type to create");
        errors
    }
}

impl UpdatePropertyTypeRequest {
    /// The broken rules: a name and a code.
    pub fn validate(&self) -> (r: Vec<FieldError>)
        ensures
            issues(r@) == issue_if(char_len(self.name@) < 1, "name"@, "length"@, Some("Please provide the name of the Property Type to update"@)) + issue_if(char_len(self.code@) < 1, "code"@, "length"@, Some("Please provide the Code of the Property Type to update"@)),
    {
        let mut errors: Vec<FieldError> = Vec::new();
        proof {
            assert(issues(errors@) =~= Seq::<Issue>::empty());
        }
        check_length(&mut errors, "name", self.name.as_str(), Some(1), None, "Please provide the name of the Property Type to update");
        check_length(&mut errors, "code", self.code.as_str(), Some(1), None, "Please provide the Code of the Property Type to update");
        errors
    }
}

impl CreatePropertyOptionRequest {
    /// The broken rules: a label and a value.
    pub fn validate(&self) -> (r: Vec<FieldError>)
        ensures
            issues(r@) == issue_if(char_len(self.label@) < 1, "label"@, "length"@, Some("Please provide the name of the Property Option to create"@)) + issue_if(char_len(self.value@) < 1, "value"@, "length"@, Some("Please provide the Value of the Property Option to create"@)),
    {
        let mut errors: Vec<FieldError> = Vec::new();
        proof {
            assert(issues(errors@) =~= Seq::<Issue>::empty());
        }
        check_length(&mut errors, "label", self.label.as_str(), Some(1), None, "Please provide the name of the Property Option to create");
        check_length(&mut errors, "value", self.value.as_str(), Some(1), None, "Please provide the Value of the Property Option to create");
        errors
    }
}

impl UpdatePropertyOptionRequest {
    /// The broken rules: a label and a value.
    pub fn validate(&self) -> (r: Vec<FieldError>)
        ensures
            issues(r@) == issue_if(char_len(self.label@) < 1, "label"@, "length"@, Some("Please provide the Label of the Property Option to update"@)) + issue_if(char_len(self.value@) < 1, "value"@, "length"@, Some("Please provide the Value of the Property Option to update"@)),
    {
        let mut errors: Vec<FieldError> = Vec::new();
        proof {
            assert(issues(errors@) =~= Seq::<Issue>::empty());
        }
        check_length(&mut errors, "label", self.label.as_str(), Some(1), None, "Please provide the Label of the Property Option to update");
        check_length(&mut errors, "value", self.value.as_str(), Some(1), None, "Please provide the Value of the Property Option to update");
        errors
    }
}

} // verus!
