//! Verified core of a productivity back-end: pagination, validation, calendar
//! arithmetic, finance statistics, project boards, todo ordering and the
//! access decisions taken by each service.
pub mod common;
pub mod modules;
