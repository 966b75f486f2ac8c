//! Errors that the services answer with, and how each becomes an HTTP answer.
use crate::common::response::{ApiResponse, EmptyData};
use vstd::prelude::*;

verus! {

/// An error answered to the client; the text is the message shown.
#[derive(Debug)]
pub enum AppError {
    BadRequest(String),
    Unauthorized(String),
    Forbidden(String),
    NotFound(String),
    Conflict(String),
    InternalServerError(String),
}

/// What the database layer reported, as far as the services tell errors
/// apart: no row, a unique-constraint violation, or anything else.
#[derive(Clone, Copy, PartialEq, Eq, Debug, Structural)]
pub enum DbError {
    NotFound,
    UniqueViolation,
    Other,
}

/// HTTP status code of each kind of error.
pub open spec fn spec_status_code(e: AppError) -> u16 {
    match e {
        AppError::BadRequest(_) => 400,
        AppError::Unauthorized(_) => 401,
        AppError::Forbidden(_) => 403,
        AppError::NotFound(_) => 404,
        AppError::Conflict(_) => 409,
        AppError::InternalServerError(_) => 500,
    }
}

pub open spec fn spec_message(e: AppError) -> Seq<char> {
    match e {
        AppError::BadRequest(m) => m@,
        AppError::Unauthorized(m) => m@,
        AppError::Forbidden(m) => m@,
        AppError::NotFound(m) => m@,
        AppError::Conflict(m) => m@,
        AppError::InternalServerError(m) => m@,
    }
}

/// `e` is a `NotFound` error with the message `msg`; likewise below.
pub open spec fn is_not_found(e: AppError, msg: Seq<char>) -> bool {
    e matches AppError::NotFound(m) && m@ == msg
}

pub open spec fn is_forbidden(e: AppError, msg: Seq<char>) -> bool {
    e matches AppError::Forbidden(m) && m@ == msg
}

pub open spec fn is_bad_request(e: AppError, msg: Seq<char>) -> bool {
    e matches AppError::BadRequest(m) && m@ == msg
}

pub open spec fn is_unauthorized(e: AppError, msg: Seq<char>) -> bool {
    e matches AppError::Unauthorized(m) && m@ == msg
}

pub open spec fn is_conflict(e: AppError, msg: Seq<char>) -> bool {
    e matches AppError::Conflict(m) && m@ == msg
}

pub open spec fn is_internal(e: AppError, msg: Seq<char>) -> bool {
    e matches AppError::InternalServerError(m) && m@ == msg
}

pub fn not_found(msg: &str) -> (e: AppError)
    ensures
        is_not_found(e, msg@),
{
    AppError::NotFound(String::from_str(msg))
}

pub fn forbidden(msg: &str) -> (e: AppError)
    ensures
        is_forbidden(e, msg@),
{
    AppError::Forbidden(String::from_str(msg))
}

pub fn bad_request(msg: &str) -> (e: AppError)
    ensures
        is_bad_request(e, msg@),
{
    AppError::BadRequest(String::from_str(msg))
}

pub fn unauthorized(msg: &str) -> (e: AppError)
    ensures
        is_unauthorized(e, msg@),
{
    AppError::Unauthorized(String::from_str(msg))
}

pub fn conflict(msg: &str) -> (e: AppError)
    ensures
        is_conflict(e, msg@),
{
    AppError::Conflict(String::from_str(msg))
}

pub fn internal(msg: &str) -> (e: AppError)
    ensures
        is_internal(e, msg@),
{
    AppError::InternalServerError(String::from_str(msg))
}

impl AppError {
    /// The HTTP status code of the error.
    pub fn status_code(&self) -> (code: u16)
        ensures
            code == spec_status_code(*self),
    {
        match self {
            AppError::BadRequest(_) => 400,
            AppError::Unauthorized(_) => 401,
            AppError::Forbidden(_) => 403,
            AppError::NotFound(_) => 404,
            AppError::Conflict(_) => 409,
            AppError::InternalServerError(_) => 500,
        }
    }

    /// The status code and the body of the answer: client errors (4xx) are
    /// answered as `fail`, the others as `error`, both with the message.
    pub fn into_response(self) -> (r: (u16, ApiResponse<EmptyData>))
        ensures
            r.0 == spec_status_code(self),
            r.1.code == r.0,
            r.1.message@ == spec_message(self),
            r.1.data.is_none(),
            400 <= r.0 < 500 ==> r.1.status@ == "fail"@,
            !(400 <= r.0 < 500) ==> r.1.status@ == "error"@,
    {
        let code = self.status_code();
        let message = match self {
            AppError::BadRequest(m) => m,
            AppError::Unauthorized(m) => m,
            AppError::Forbidden(m) => m,
            AppError::NotFound(m) => m,
            AppError::Conflict(m) => m,
            AppError::InternalServerError(m) => m,
        };
        let body = if 400 <= code && code < 500 {
            ApiResponse::<EmptyData>::fail(code, message.as_str())
        } else {
            ApiResponse::<EmptyData>::error(code, message.as_str())
        };
        (code, body)
    }

    /// The error a database failure becomes: a missing row is `NotFound`, a
    /// duplicate is `Conflict`, anything else an internal error.
    pub fn from_db_error(err: DbError) -> (e: AppError)
        ensures
            err == DbError::NotFound ==> is_not_found(e, "ข้อมูลที่ต้องการไม่พบในระบบ"@),
            err == DbError::UniqueViolation ==> is_conflict(e, "ข้อมูลนี้มีอยู่แล้วในระบบ"@),
            err == DbError::Other ==> is_internal(e, "เกิดข้อผิดพลาดจากฐานข้อมูล"@),
    {
        match err {
            DbError::NotFound => not_found("ข้อมูลที่ต้องการไม่พบในระบบ"),
            DbError::UniqueViolation => conflict("ข้อมูลนี้มีอยู่แล้วในระบบ"),
            DbError::Other => internal("เกิดข้อผิดพลาดจากฐานข้อมูล"),
        }
    }
}

/// The error a failed query becomes, with the messages of the caller: a
/// missing row gives `not_found_msg`, anything else `internal_msg`.
pub fn map_diesel_error(not_found_msg: &str, internal_msg: &str, err: DbError) -> (e: AppError)
    ensures
        err == DbError::NotFound ==> is_not_found(e, not_found_msg@),
        err != DbError::NotFound ==> is_internal(e, internal_msg@),
{
    match err {
        DbError::NotFound => not_found(not_found_msg),
        _ => internal(internal_msg),
    }
}

} // verus!

verus! {

/// `r` is an error of the given kind and message.
pub open spec fn rejects_not_found<T>(r: Result<T, AppError>, msg: Seq<char>) -> bool {
    match r {
        Err(e) => is_not_found(e, msg),
        Ok(_) => false,
    }
}

pub open spec fn rejects_forbidden<T>(r: Result<T, AppError>, msg: Seq<char>) -> bool {
    match r {
        Err(e) => is_forbidden(e, msg),
        Ok(_) => false,
    }
}

pub open spec fn rejects_bad_request<T>(r: Result<T, AppError>, msg: Seq<char>) -> bool {
    match r {
        Err(e) => is_bad_request(e, msg),
        Ok(_) => false,
    }
}

pub open spec fn rejects_unauthorized<T>(r: Result<T, AppError>, msg: Seq<char>) -> bool {
    match r {
        Err(e) => is_unauthorized(e, msg),
        Ok(_) => false,
    }
}

pub open spec fn rejects_conflict<T>(r: Result<T, AppError>, msg: Seq<char>) -> bool {
    match r {
        Err(e) => is_conflict(e, msg),
        Ok(_) => false,
    }
}

pub open spec fn rejects_internal<T>(r: Result<T, AppError>, msg: Seq<char>) -> bool {
    match r {
        Err(e) => is_internal(e, msg),
        Ok(_) => false,
    }
}

} // verus!
